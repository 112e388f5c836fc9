# buncher

Bulk processing of an image (and video) directory: duplicate removal,
per-image edits (flip, mirror, invert, grayscale, blur, brighten, hue,
resize, thumbnail, rotate), output naming, and the sorting of videos.

- `src/` is the verified library (Verus). It holds every decision the
  program makes: reading command-line values (`args`), the edit list
  (`plan`), path handling on `/`-separated paths (`paths`), output naming
  and video routing (`naming`), duplicate detection by SHA3-256 digest
  (`dedup`, `collect`), and the text and number helpers these use (`text`,
  `number`). Laws about these functions are public proof functions next to
  them (`law_*`).
- `app/` is the command-line program: argument parsing with clap, the
  directory walk, file I/O, and image decoding, editing and encoding with
  the `image` crate. It asks the library what to do and does it.
- `tests/` runs the library on concrete values, and compares the path,
  trimming, number and replacement functions with the standard library.
