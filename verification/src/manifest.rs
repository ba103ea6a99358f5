//! The build information compiled into the binary.
use crate::output::{rows_view, GenericKeyValue};
use vstd::prelude::*;

verus! {

/// Build information of the running binary.
#[derive(Clone)]
pub struct Manifest {
    pub build_timestamp: String,
    pub build_version: String,
    pub commit_date: String,
    pub commit_sha: String,
    pub commit_branch: String,
    pub rustc_version: String,
    pub rustc_channel: String,
    pub rustc_host_triple: String,
    pub rustc_commit_sha: String,
    pub cargo_target_triple: String,
    pub cargo_profile: String,
}

/// The rows of the verbose version output, in order.
pub open spec fn manifest_rows(m: Manifest) -> Seq<(Seq<char>, Seq<char>)> {
    seq![
        ("Build Timestamp:"@, m.build_timestamp@),
        ("Build Version:"@, m.build_version@),
        ("Commit Date:"@, m.commit_date@),
        ("Commit SHA:"@, m.commit_sha@),
        ("Commit Branch:"@, m.commit_branch@),
        ("rustc Version:"@, m.rustc_version@),
        ("rustc Channel:"@, m.rustc_channel@),
        ("rustc Host Triple:"@, m.rustc_host_triple@),
        ("rustc Commit SHA:"@, m.rustc_commit_sha@),
        ("cargo Target Triple:"@, m.cargo_target_triple@),
        ("cargo Opt Level:"@, m.cargo_profile@),
    ]
}

impl GenericKeyValue {
    /// The build information as rows of a detail table.
    pub fn from_manifest(manifest: Manifest) -> (rows: Vec<GenericKeyValue>)
        ensures
            rows_view(rows@) == manifest_rows(manifest),
    {
        let ghost m = manifest;
        let mut rows: Vec<GenericKeyValue> = Vec::new();
        rows.push(GenericKeyValue::with_key("Build Timestamp:", manifest.build_timestamp));
        rows.push(GenericKeyValue::with_key("Build Version:", manifest.build_version));
        rows.push(GenericKeyValue::with_key("Commit Date:", manifest.commit_date));
        rows.push(GenericKeyValue::with_key("Commit SHA:", manifest.commit_sha));
        rows.push(GenericKeyValue::with_key("Commit Branch:", manifest.commit_branch));
        rows.push(GenericKeyValue::with_key("rustc Version:", manifest.rustc_version));
        rows.push(GenericKeyValue::with_key("rustc Channel:", manifest.rustc_channel));
        rows.push(GenericKeyValue::with_key("rustc Host Triple:", manifest.rustc_host_triple));
        rows.push(GenericKeyValue::with_key("rustc Commit SHA:", manifest.rustc_commit_sha));
        rows.push(GenericKeyValue::with_key("cargo Target Triple:", manifest.cargo_target_triple));
        rows.push(GenericKeyValue::with_key("cargo Opt Level:", manifest.cargo_profile));
        assert(rows_view(rows@) =~= manifest_rows(m));
        rows
    }
}

} // verus!
