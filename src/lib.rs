pub mod bytes;
pub mod digest;
pub mod directory;
pub mod dvd_reader;
pub mod error;
pub mod extents;
pub mod iso9660;
pub mod location;
pub mod multipart;
pub mod names;
pub mod udf;
pub mod volume_id;
