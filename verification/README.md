# audio-friend

A small desktop application that listens to an audio input, cuts clips out of it and,
where a bucket is configured, uploads them to S3-compatible storage. Its logic is a
library that is verified with Verus.

## Layout

- `src/` - the library.
  - `text`, `order`, `time`, `level`: characters, sorting, points in time, signal levels.
  - `wav`: sound files.
  - `config`: the settings and what can be wrong with them.
  - `devices`: the devices that the user can choose from.
  - `clips`: naming, listing, uploading and downloading clips.
  - `detector`: cutting clips out of a stream of samples.
  - `engine`: starting and stopping, feeding the detector, looking after uploads.
  - `playback`: the player and its worker.
  - `activity`, `app`, `ui`: the log, the application as a state machine, and what its
    windows show.
- `app/` - the program around it: windows, audio devices, files and the network.
- `tests/` - the library's tests.

## How it works

The library decides, the program does. `app::update` takes a message and answers with
what is to be done; the program does it and reports back with another message. Time comes
in as numbers: a moment is a count of nanoseconds on a monotonic clock, a `Timestamp` a
point of the calendar. Samples are 16-bit PCM, and a level is the bits of a
single-precision number.

Most types have a view, a ghost value that holds their texts and lists as sequences;
contracts say what becomes of that view. Plain values, such as a level, stand for
themselves. What holds of several calls together is stated in the proof functions at the
end of each module.

## Settings

- input and output device
- thresholds
- seconds of sound kept before a clip starts, and seconds of silence that end it
- S3 endpoint, bucket, access key and secret key; leave them blank to disable uploads,
  which are off while one of them is empty or all of them are blank
