# yt_thumb

A verified library and CLI that downloads YouTube thumbnails at the highest
available resolution.

- `src/` is the library, checked by Verus:
  - `resolution.rs`: the five thumbnail resolutions, their file names and labels;
  - `thumbnail.rs`: the thumbnail URL of a video at a resolution;
  - `video_id.rs`: video ID syntax and the extraction of an ID from the URL
    forms YouTube uses (`url::Url::parse` is called behind one trusted wrapper);
  - `download.rs`: the decisions of a download (which URL next, when to fall
    back to a lower resolution, when to stop) as a state machine;
  - `text.rs`: trimming, prefix, suffix and equality on strings.
- `app/` is the command-line program: argument parsing, the HTTP requests
  (reqwest) that drive the library's download state machine, and file output.
- `tests/` runs the library on concrete inputs.
