pub mod init_command;
pub mod dev_command;
