pub mod asteroids;
pub mod battleship;
pub mod bn254;
pub mod checkers;
pub mod chess;
pub mod common;
pub mod connect_four;
pub mod hidden_hand;
pub mod memory_match;
pub mod minesweeper;
pub mod murdoku;
pub mod murdoku_zk;
pub mod pong;
pub mod reversi;
pub mod rock_paper_scissors;
pub mod snake;
pub mod tetris;
pub mod tic_tac_toe;
pub mod zk_xdr;
