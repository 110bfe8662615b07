pub mod assembler;
pub mod board;
pub mod bridge;
pub mod clock;
pub mod flow;
pub mod loops;
pub mod machine;
pub mod program;
pub mod queue;
pub mod single;
pub mod tasks;
pub mod uart_config;
