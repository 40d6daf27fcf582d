pub mod gic;
