pub mod file_name;
