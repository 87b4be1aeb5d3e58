pub mod score_db;
