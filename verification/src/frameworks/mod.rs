pub mod next;
