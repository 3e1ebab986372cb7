# rustconvert

The backend of an online file converter (audio/video to MP3, office
documents to PDF, PDF pages to images, pictures to app icons), split in two:

- `src/` is the verified library. It holds the whitelist of conversion pairs
  (`kinds`), the reading and validation of a request (`request`), the error
  answers (`error`), the random file names, command lines and responses of a
  job (`plan`), the selection and naming of rendered PDF pages (`pages`), the
  in-memory zip archive (`archive`), the app-icon set (`icons`), the server
  settings and CORS whitelist (`config`), path arguments (`paths`) and small
  string utilities (`text`).
- `app/` is the HTTP server (axum), which reads the request, runs FFmpeg,
  LibreOffice and pdftoppm in a temporary directory, and answers; it asks the
  library for every decision.
