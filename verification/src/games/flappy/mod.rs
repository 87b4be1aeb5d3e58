pub mod rules;
