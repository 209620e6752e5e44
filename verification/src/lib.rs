//! Catalog-then-replay engine for indexed MCAP container logs.
//!
//! The crate loads the end-of-file index of a container (its schemas and
//! channels), and then decides, record by record, how the data section is
//! played back at its recorded pace.  It performs no I/O of its own: the
//! caller reads bytes, sleeps and publishes, and asks the library what to do
//! next.
//!
//! * [`footer`] reads the last bytes of a file: is it a container, and where
//!   does its summary section start.
//! * [`decoder`] turns bytes into records, one step at a time; [`guard`]
//!   keeps frames with impossible lengths away from the reader, [`chunk`]
//!   opens chunks and cuts their records out, [`frame`] keeps malformed
//!   frames away from the record parser, and [`record`] holds the records
//!   themselves.
//! * [`summary`] builds the catalog from the records of the summary section.
//! * [`time_tracker`] maps recorded time to wall-clock waits and throttles
//!   the announcements of the playback clock.
//! * [`stream`] plays one pass over the data section, and [`controller`]
//!   decides how many passes there are.
//!
//! Every function is verified against its contract.  The contracts speak of
//! mathematical views of the data: a catalog is a pair of finite maps, a pass
//! is a set of channel ids with three recorded times.  What the library takes
//! from outside (the reader and the record parser of the container crate,
//! the two decompressors, a byte order conversion, the monotonic clock)
//! stands behind a handful of small functions whose contracts are taken on
//! trust; each says so.

pub mod chunk;
pub mod controller;
pub mod decoder;
pub mod error;
pub mod footer;
pub mod frame;
pub mod guard;
pub mod record;
pub mod stream;
pub mod summary;
pub mod time_tracker;
