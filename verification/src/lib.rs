pub mod callout;
pub mod callouts;
pub mod driver;
pub mod kthread;
pub mod llist;
pub mod ntfail;
pub mod packet;
pub mod spinlock;
pub mod test;
