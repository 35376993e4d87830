pub mod hackernews;
pub mod lobsters;
pub mod test;
