# media_organizer

Copies photos and videos from a source folder into a destination folder,
one sub-folder per creation date (`YYYY-MM-DD`), skipping files that are
already there with the same MD5 digest and renaming (`name_1.ext`, ...)
different files of the same name.

- `src/` is the library, verified with Verus: date texts of EXIF and
  `ffprobe` (`metadata`), the calendar (`date`), file names and the free-name
  search (`filename`), the copy of one file as a state machine that the file
  system drives (`copier`), MD5 fingerprints (`digest`), media detection
  (`scanner`), the search path and `ffprobe` status (`system`), the
  install-command terminal (`terminal`) and the copy session with its events
  and log lines (`session`).
- `app/` is the Tauri application around it: the commands, file-system and
  process I/O, EXIF reading, JSON decoding and the event stream.
- `tests/` exercises the library on concrete inputs.
