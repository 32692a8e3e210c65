pub mod sidecar;
