//! Plans, checks and reports of a tool that cuts GeoTIFF images into map tiles with GDAL and
//! uploads the tiles to an object store.

pub mod text;
pub mod numbers;
pub mod progress_event;
pub mod paths;
pub mod json;
pub mod tif_inspector;
pub mod gdal_env;
pub mod ids;
pub mod oss_upload;
pub mod upload_context;
pub mod oss_urls;
pub mod oss_request;
pub mod oss_batch;
pub mod tile_stages;
pub mod jobs;
pub mod stage_run;
pub mod tile_upload;
pub mod gdal_pipeline;
pub mod preview;
pub mod deep_links;
