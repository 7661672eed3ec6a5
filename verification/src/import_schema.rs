//! Schema-import requests and their inclusion modes.

use crate::options::Options;
use crate::text::same_text;
use vstd::prelude::*;

verus! {

/// Which of the listed tables a schema import takes.
#[derive(Debug, Clone, Copy, PartialEq, Eq, Structural)]
pub enum ImportSchemaType {
    /// Every table of the remote schema.
    FdwImportSchemaAll,
    /// Only the listed tables.
    FdwImportSchemaLimitTo,
    /// Every table but the listed ones.
    FdwImportSchemaExcept,
}

/// The engine's code for "all tables".
pub const RAW_IMPORT_ALL: u32 = 0;

/// The engine's code for "only the listed tables".
pub const RAW_IMPORT_LIMIT_TO: u32 = 1;

/// The engine's code for "all but the listed tables".
pub const RAW_IMPORT_EXCEPT: u32 = 2;

impl ImportSchemaType {
    /// The mode that an engine code stands for; any code that is none of
    /// the three known ones stands for "all tables".
    pub open spec fn spec_from_raw(raw: u32) -> ImportSchemaType {
        if raw == RAW_IMPORT_LIMIT_TO {
            ImportSchemaType::FdwImportSchemaLimitTo
        } else if raw == RAW_IMPORT_EXCEPT {
            ImportSchemaType::FdwImportSchemaExcept
        } else {
            ImportSchemaType::FdwImportSchemaAll
        }
    }

    /// Decodes the engine's inclusion-mode code.
    pub fn from_raw(raw: u32) -> (mode: ImportSchemaType)
        ensures
            mode == Self::spec_from_raw(raw),
    {
        if raw == RAW_IMPORT_LIMIT_TO {
            ImportSchemaType::FdwImportSchemaLimitTo
        } else if raw == RAW_IMPORT_EXCEPT {
            ImportSchemaType::FdwImportSchemaExcept
        } else {
            ImportSchemaType::FdwImportSchemaAll
        }
    }

    /// The engine's code of a mode.
    pub open spec fn spec_to_raw(self) -> u32 {
        match self {
            ImportSchemaType::FdwImportSchemaAll => RAW_IMPORT_ALL,
            ImportSchemaType::FdwImportSchemaLimitTo => RAW_IMPORT_LIMIT_TO,
            ImportSchemaType::FdwImportSchemaExcept => RAW_IMPORT_EXCEPT,
        }
    }

    /// Encodes a mode as the engine's code.
    pub fn to_raw(self) -> (raw: u32)
        ensures
            raw == self.spec_to_raw(),
            Self::spec_from_raw(raw) == self,
    {
        match self {
            ImportSchemaType::FdwImportSchemaAll => RAW_IMPORT_ALL,
            ImportSchemaType::FdwImportSchemaLimitTo => RAW_IMPORT_LIMIT_TO,
            ImportSchemaType::FdwImportSchemaExcept => RAW_IMPORT_EXCEPT,
        }
    }

    /// Whether a table of the given listing status is taken under this mode.
    pub fn takes(self, listed: bool) -> (taken: bool)
        ensures
            taken == match self {
                ImportSchemaType::FdwImportSchemaAll => true,
                ImportSchemaType::FdwImportSchemaLimitTo => listed,
                ImportSchemaType::FdwImportSchemaExcept => !listed,
            },
    {
        match self {
            ImportSchemaType::FdwImportSchemaAll => true,
            ImportSchemaType::FdwImportSchemaLimitTo => listed,
            ImportSchemaType::FdwImportSchemaExcept => !listed,
        }
    }
}

/// A request to import the tables of a remote schema as local foreign
/// tables.
#[derive(Debug, Clone, PartialEq)]
pub struct ImportForeignSchemaStmt {
    pub server_name: String,
    pub remote_schema: String,
    pub local_schema: String,
    pub list_type: ImportSchemaType,
    pub table_list: Vec<String>,
    pub options: Options,
}

/// Whether a list of names holds `name`.
pub open spec fn lists(names: Seq<String>, name: Seq<char>) -> bool {
    exists|i: int| 0 <= i < names.len() && (#[trigger] names[i])@ == name
}

impl ImportForeignSchemaStmt {
    /// Whether the request takes the remote table `table`: every table
    /// under "all", the listed ones under "limit to", the others under
    /// "except".
    pub open spec fn spec_includes(&self, table: Seq<char>) -> bool {
        match self.list_type {
            ImportSchemaType::FdwImportSchemaAll => true,
            ImportSchemaType::FdwImportSchemaLimitTo => lists(self.table_list@, table),
            ImportSchemaType::FdwImportSchemaExcept => !lists(self.table_list@, table),
        }
    }

    /// Builds the request from what the engine hands over; the inclusion
    /// mode comes as the engine's code.
    pub fn from_parts(
        server_name: String,
        remote_schema: String,
        local_schema: String,
        raw_list_type: u32,
        table_list: Vec<String>,
        options: Options,
    ) -> (r: ImportForeignSchemaStmt)
        ensures
            r.server_name == server_name,
            r.remote_schema == remote_schema,
            r.local_schema == local_schema,
            r.list_type == ImportSchemaType::spec_from_raw(raw_list_type),
            r.table_list == table_list,
            r.options == options,
    {
        ImportForeignSchemaStmt {
            server_name,
            remote_schema,
            local_schema,
            list_type: ImportSchemaType::from_raw(raw_list_type),
            table_list,
            options,
        }
    }

    /// Whether the request takes the remote table `table`.
    pub fn includes(&self, table: &str) -> (r: bool)
        ensures
            r == self.spec_includes(table@),
    {
        let mut listed = false;
        let mut i: usize = 0;
        while i < self.table_list.len() && !listed
            invariant
                i <= self.table_list.len(),
                listed ==> lists(self.table_list@, table@),
                !listed ==> forall|j: int| 0 <= j < i ==> (#[trigger] self.table_list@[j])@ != table@,
            decreases self.table_list.len() - i,
        {
            if same_text(self.table_list[i].as_str(), table) {
                listed = true;
            }
            i += 1;
        }
        self.list_type.takes(listed)
    }
}

/// An inclusion mode that the engine hands over as a code that is none of
/// the three known ones makes the same request as the mode "all": the
/// same mode, and every table taken.
pub proof fn law_unknown_mode_is_all(raw: u32, stmt: ImportForeignSchemaStmt, table: Seq<char>)
    requires
        raw != RAW_IMPORT_ALL && raw != RAW_IMPORT_LIMIT_TO && raw != RAW_IMPORT_EXCEPT,
        stmt.list_type == ImportSchemaType::spec_from_raw(raw),
    ensures
        ImportSchemaType::spec_from_raw(raw) == ImportSchemaType::spec_from_raw(RAW_IMPORT_ALL),
        stmt.list_type == ImportSchemaType::FdwImportSchemaAll,
        stmt.spec_includes(table),
{
}

} // verus!
