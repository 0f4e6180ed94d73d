# video_merger

A video editor that puts clips on a timeline with several tracks, shows them in
a preview and exports them with ffmpeg. The rules of the editor are a library
that is verified with Verus; a program around it does the input and output.

## Layout

- `src/` is the library.
  - `domain/`: clips, playlists, projects with tracks, and the look of a clip
    with its keyframes.
  - `services/`: splitting, trimming, moving and deleting clips, and the plan of
    a merge.
  - `engine/`: command lines for ffmpeg and ffprobe, the render plan of a
    project and its filter graph, whether an export can join files as they are,
    waveforms, and the search for pictures in a video.
  - `persistence/`: settings, the history of exports, and project files of all
    versions.
  - `worker/`: which command starts what, and the state machines of the preview
    threads.
  - `view_model/` and `bridge/`: what the window shows, what its buttons do, and
    how to undo it.
- `tests/` run the library from outside.
- `app/` is the program: processes, files, decoders, sound, threads, and a
  console in place of a window.

Floating-point numbers of the domain are carried as their bits (`scalar`);
computing with them is left to `app/`. Times are whole microseconds on the
timeline and whole nanoseconds elsewhere.

ffmpeg and ffprobe have to be on the search path, or named in the settings.
