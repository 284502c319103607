pub mod network_descriptor;
