use vstd::prelude::*;

verus! {

/// Export container formats the operator console can ask for. Their byte
/// layout belongs to the external codec layer; the engine only stamps
/// the request.
#[derive(Clone, Copy, PartialEq, Eq, Structural, Debug)]
pub enum ExportFormat {
    Lume,
    Csv,
}

/// Receipt for a requested export: the format honoured and the fresh
/// identifier under which the codec layer files the artifact.
#[derive(Debug)]
pub struct ExportReceipt {
    pub format: ExportFormat,
    pub export_id: String,
}

/// Relies on uuid::Uuid::new_v4 and uuid's Display impl: a fresh random
/// version-4 UUID rendered in the hyphenated form, which is always 36
/// characters. The value is random, so nothing further holds of it.
#[verifier::external_body]
fn fresh_export_id() -> (r: String)
    ensures
        r@.len() == 36,
{
    uuid::Uuid::new_v4().to_string()
}

/// Stamps an export request: echoes the chosen format and draws the
/// fresh identifier the artifact will be filed under.
pub fn export_show(format: ExportFormat) -> (r: ExportReceipt)
    ensures
        r.format == format,
        r.export_id@.len() == 36,
{
    let export_id = fresh_export_id();
    ExportReceipt { format, export_id }
}

} // verus!
