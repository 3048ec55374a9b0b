# auto_decompress

Building blocks for recovering archives whose file names were tampered with:
normalizing the extension chain of a file name, detecting a file's type from
its content, and turning what the 7-zip engine reports into archive
descriptions and errors.

- `src/` is the verified library (Verus):
  - `text`: the ASCII character classes and the cleaning of character sequences;
  - `segments`: splitting a name at its dots and joining segments again;
  - `normalize`: `normalize_extension` and the laws of normalization;
  - `extension_detector`: input kinds, detection errors, `FileTypeInfo`, and in
    `normal` the signature-based detector and the lenient normalization, and
    in `signature_scan` the inputs on which the detector's signature scan
    reads past their end (detection is defined for all others);
  - `bit7z`: errors, item and archive descriptions, and the interpretation of
    operation results of the 7-zip engine (`bit7z::ffi` holds its plain values).
- `app/` is the unverified side: the C++ bridge to the 7-zip engine, reading
  files for detection, and the error types with their `Display` texts.
- `tests/` runs the library on concrete values.
