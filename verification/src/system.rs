pub mod dependency_manager;
pub mod installer_checks;
