pub mod repository_link;
