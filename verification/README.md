# gallery_organizer

Backend of a desktop photo-library organiser: it scans a folder, groups images
by capture date, file size or visual similarity, and batch-processes them
(compress, resize, convert).

The library in `src/` is written in Verus. Every function there carries a
contract that Verus proves: perceptual-hash comparison and duplicate
clustering (union-find with path compression), date and size bucketing, resize
planning, settings loading, saving and merging, output paths and the decisions
of the job runner, and the work on a file's bytes: EXIF fields, perceptual
hashes, processing and thumbnails. Calls into outside crates (`hex`, `chrono`,
`serde_json`, `base64`, `image`, `image_hasher`, `zune-jpeg`, `webp`,
`kamadak-exif`) and into `std` where vstd has no specification (`Path`, `str::trim`,
`str::to_lowercase`, `str::from_utf8`) go through small trusted wrappers whose
doc comments say what their contracts claim.

`app/` is ordinary Rust around the library: the SQLite store, reading and
writing files, walking folders, thread pools and the operations the user
interface invokes. It hands the library plain values and
acts on what comes back.

`tests/` exercises the library on concrete values.

Layout of `src/`:

| Module | Contents |
|--------|----------|
| `scanner::hash` | hex hash texts, hamming distance, perceptual hashes of file bytes |
| `imaging` | wrappers around the image codecs and the hasher |
| `scanner::exif`, `scanner` | metadata extraction, image records, progress pacing |
| `grouper::dupe_grouper` | near-duplicate clusters and keepers |
| `grouper::date_grouper` | day, month and year buckets |
| `grouper::size_grouper` | file-size tiers |
| `processor::compress` | output size estimates, processing plans, processing of image bytes |
| `processor::output` | output paths |
| `processor::job_runner` | job strategies, counters and final status |
| `settings` | settings store entries, loading and merging |
| `db`, `commands` | records, listing parameters, command helpers |
| `text` | decimal texts and text equality |
