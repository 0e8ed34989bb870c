//! Manifests of plugins and icon packs: their data model, the grammars of
//! their identifiers, action names and colours, and the validation that
//! reports every broken rule with the path of the value that breaks it.

pub mod chars;
pub mod color;
pub mod icons;
pub mod plugin;
pub mod report;
pub mod system;
pub mod validation;
