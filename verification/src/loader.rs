pub mod util;
