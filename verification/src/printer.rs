//! The normalized printer record that discovery produces.

use vstd::prelude::*;

verus! {

/// Mathematical model of a printer record: each field as a character
/// sequence.
#[verifier::ext_equal]
pub ghost struct PrinterModel {
    /// Human-readable label.
    pub name: Seq<char>,
    /// The identifier the OS print subsystem expects, byte for byte.
    pub system_name: Seq<char>,
    /// Driver label; empty where the platform reports none.
    pub driver_name: Seq<char>,
}

/// A record produced by discovery and well-formed for submission: the
/// system identifier is never empty.
pub open spec fn wf_model(m: PrinterModel) -> bool {
    m.system_name.len() > 0
}

/// A printer as reported by the operating system's print subsystem.
///
/// `system_name` is the exact identifier the OS print tools expect when a
/// job is submitted; `name` is a cosmetic label derived from it or reported
/// beside it, and is never used to address the printer.
#[derive(Debug)]
pub struct Printer {
    /// Visual reference of the system printer name.
    pub name: String,
    /// Name of the printer exactly as on the system.
    pub system_name: String,
    /// Name of the printer driver on the system.
    pub driver_name: String,
}

impl View for Printer {
    type V = PrinterModel;

    open spec fn view(&self) -> PrinterModel {
        PrinterModel {
            name: self.name@,
            system_name: self.system_name@,
            driver_name: self.driver_name@,
        }
    }
}

impl DeepView for Printer {
    type V = PrinterModel;

    open spec fn deep_view(&self) -> PrinterModel {
        self.view()
    }
}

} // verus!
