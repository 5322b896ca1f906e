//! The records that the program reports.
use vstd::prelude::*;

verus! {

/// A tool that a package manager (or a known directory) claims.
#[derive(Debug, Clone)]
pub struct ToolInfo {
    pub name: String,
    pub path: String,
    pub source: String,
    pub version: Option<String>,
}

/// What a lookup of one binary found.
#[derive(Debug, Clone)]
pub struct LookupResult {
    pub binary: String,
    pub resolved_path: String,
    pub symlink_target: Option<String>,
    pub source: String,
    pub version: Option<String>,
}

/// One install or uninstall that the shell hooks recorded.
#[derive(Debug, Clone)]
pub struct InstallEvent {
    pub timestamp: String,
    pub source: String,
    pub action: String,
    pub packages: Vec<String>,
}

/// The text of an optional string.
pub open spec fn opt_view(o: Option<String>) -> Option<Seq<char>> {
    match o {
        Some(s) => Some(s@),
        None => None,
    }
}

/// A copy of an optional string.
pub fn copy_opt(o: &Option<String>) -> (r: Option<String>)
    ensures
        opt_view(r) == opt_view(*o),
{
    match o {
        Some(s) => Some(s.clone()),
        None => None,
    }
}

impl ToolInfo {
    /// The four texts of the record, in field order.
    pub open spec fn fields(&self) -> (Seq<char>, Seq<char>, Seq<char>, Option<Seq<char>>) {
        (self.name@, self.path@, self.source@, opt_view(self.version))
    }

    /// A copy of the record.
    pub fn copy(&self) -> (r: ToolInfo)
        ensures
            r.fields() == self.fields(),
    {
        ToolInfo {
            name: self.name.clone(),
            path: self.path.clone(),
            source: self.source.clone(),
            version: copy_opt(&self.version),
        }
    }
}

impl LookupResult {
    /// The five texts of the record, in field order.
    pub open spec fn fields(&self) -> (Seq<char>, Seq<char>, Option<Seq<char>>, Seq<char>, Option<Seq<char>>) {
        (self.binary@, self.resolved_path@, opt_view(self.symlink_target), self.source@, opt_view(self.version))
    }

    /// A copy of the record.
    pub fn copy(&self) -> (r: LookupResult)
        ensures
            r.fields() == self.fields(),
    {
        LookupResult {
            binary: self.binary.clone(),
            resolved_path: self.resolved_path.clone(),
            symlink_target: copy_opt(&self.symlink_target),
            source: self.source.clone(),
            version: copy_opt(&self.version),
        }
    }
}

/// The records' fields of a sequence of tools.
pub open spec fn tool_fields(v: Seq<ToolInfo>) -> Seq<(Seq<char>, Seq<char>, Seq<char>, Option<Seq<char>>)> {
    v.map_values(|t: ToolInfo| t.fields())
}

} // verus!
