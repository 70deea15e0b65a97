pub mod gsm_toy;
pub mod oracle;
pub mod report;
pub mod runner;
pub mod scorer;
