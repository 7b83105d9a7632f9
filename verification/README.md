# tif2tiles

Plans, checks and reports of a desktop tool that cuts GeoTIFF images into map tiles with GDAL and
uploads the tiles to an object store.

`src/` is the library, verified with Verus. It decides: which tools run with which arguments, what
their output means, where tiles go and how requests are signed, what is reported, and what ends a
job. It does no input or output. Where work outside alternates with decisions, a function of the
library takes what is known so far, or what has just happened, and says what to do next.

- `text`, `numbers`, `paths`, `json`, `ids`: texts, decimal numbers, paths, JSON documents, names
- `progress_event`: reports, and the progress in a line of tool output
- `tif_inspector`, `gdal_env`, `preview`: what an image is, where the tools are, corners of an image
- `tile_stages`, `stage_run`, `gdal_pipeline`, `jobs`: the stages of a job, one stage, a whole job,
  the jobs under way
- `oss_upload`, `oss_urls`, `oss_request`, `oss_batch`, `tile_upload`, `upload_context`: the target
  of an upload, its URLs, one request, a batch, the upload of a job, the folder of a tenant
- `deep_links`: links that other programs open

`app/` is the program around the library: the window, processes, files, requests, and the shift of
coordinates to GCJ-02, which is floating-point arithmetic. `tests/` holds the tests of the library.
