pub mod box_payload;
pub mod catalog;
pub mod cmaf_splitter;
pub mod prepared_cmaf_track;
