pub mod u64_board_mod;

pub use u64_board_mod::u64_board;
