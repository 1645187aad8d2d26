# ffmpeg_player

A video player: a thread demuxes and decodes a file, two ring buffers hold the decoded pictures and
sounds, and a widget and a sound device take from these what is due.

`src/` is the library, verified with Verus:

- `ringbuf`: the ring buffer, its slots and its iterator, and the laws that these obey.
- `audio`: bringing queued audio frames to the device.
- `format`: sample formats, and when audio has to be resampled.
- `sync`: the clock that picture and sound share.
- `widget`: which picture is shown, and when the next one is due.
- `decode`: the rules of the decoder thread.
- `custom_io`: the numbers that the demuxer asks and is answered with.
- `option_ext`: a small helper on `Option`.

The library neither waits nor locks: where a thread has to wait, a call says so, and is made again
later. `app/` is the program around it, with the threads and locks, FFmpeg, the sound device and the
window. `tests/` runs the library.
