//! How tables and indexes are found in the catalog.

use vstd::prelude::*;
use vstd::string::*;

use crate::bson::{doc1, Bson, BsonV, DocV, Document};
use crate::error::{res_unit, ErrV, StorageError};
use crate::protocol::{in_catalog, Command, CommandV, Place};
use crate::text::{contains_char, join2};

verus! {

/// The identifier of a table.
pub open spec fn table_key(account_id: Seq<char>, table_name: Seq<char>) -> BsonV {
    BsonV::Doc(
        doc1("account_id"@, BsonV::Str(account_id)).with("table_name"@, BsonV::Str(table_name)),
    )
}

/// The filter that finds a table.
pub open spec fn table_filter_of(account_id: Seq<char>, table_name: Seq<char>) -> DocV {
    doc1("_id"@, table_key(account_id, table_name))
}

/// The identifier of an index.
pub open spec fn index_key(table_id: Seq<char>, index_name: Seq<char>) -> BsonV {
    BsonV::Doc(
        doc1("table_id"@, BsonV::Str(table_id)).with("index_name"@, BsonV::Str(index_name)),
    )
}

/// The filter that finds an index.
pub open spec fn index_filter_of(table_id: Seq<char>, index_name: Seq<char>) -> DocV {
    doc1("_id"@, index_key(table_id, index_name))
}

/// The filter that finds the indexes of a table.
pub open spec fn indexes_filter_of(table_id: Seq<char>) -> DocV {
    doc1("_id.table_id"@, BsonV::Str(table_id))
}

/// The command that looks a table up.
pub open spec fn find_table_of(account_id: Seq<char>, table_name: Seq<char>) -> CommandV {
    CommandV::FindOne {
        at: in_catalog("tables"@),
        filter: table_filter_of(account_id, table_name),
    }
}

/// The identifier of a table as a value.
pub fn table_id_value(account_id: &str, table_name: &str) -> (r: Bson)
    ensures
        r@ == table_key(account_id@, table_name@),
{
    Bson::Document(
        Document::new().with("account_id", Bson::text(account_id)).with(
            "table_name",
            Bson::text(table_name),
        ),
    )
}

/// The filter that finds a table.
pub fn table_filter(account_id: &str, table_name: &str) -> (r: Document)
    ensures
        r@ == table_filter_of(account_id@, table_name@),
{
    Document::new().with("_id", table_id_value(account_id, table_name))
}

/// The identifier of an index as a value.
pub fn index_id_value(table_id: &str, index_name: &str) -> (r: Bson)
    ensures
        r@ == index_key(table_id@, index_name@),
{
    Bson::Document(
        Document::new().with("table_id", Bson::text(table_id)).with(
            "index_name",
            Bson::text(index_name),
        ),
    )
}

/// The filter that finds an index.
pub fn index_filter(table_id: &str, index_name: &str) -> (r: Document)
    ensures
        r@ == index_filter_of(table_id@, index_name@),
{
    Document::new().with("_id", index_id_value(table_id, index_name))
}

/// The filter that finds the indexes of a table.
pub fn indexes_filter(table_id: &str) -> (r: Document)
    ensures
        r@ == indexes_filter_of(table_id@),
{
    Document::new().with("_id.table_id", Bson::text(table_id))
}

/// The command that looks a table up.
pub fn find_table(account_id: &str, table_name: &str) -> (r: Command)
    ensures
        r@ == find_table_of(account_id@, table_name@),
{
    Command::FindOne {
        at: Place::catalog("tables"),
        filter: table_filter(account_id, table_name),
    }
}

/// An account identifier that cannot be mistaken for an operator or a path:
/// ASCII, without `$`, `.` and the null character.
pub open spec fn is_account_id(id: Seq<char>) -> bool {
    !id.contains('$') && !id.contains('.') && !id.contains('\0') && vstd::utf8::is_ascii_chars(id)
}

/// What the validation of an account identifier says.
pub open spec fn account_check(id: Seq<char>) -> Result<(), ErrV> {
    if is_account_id(id) {
        Ok(())
    } else {
        Err(ErrV::Validation("Invalid account_id: "@ + id))
    }
}

/// Refuses account identifiers that could be mistaken for an operator or a
/// path.
pub fn validate_account_id(account_id: &str) -> (r: Result<(), StorageError>)
    ensures
        res_unit(r) == account_check(account_id@),
{
    if contains_char(account_id, '$') || contains_char(account_id, '.') || contains_char(
        account_id,
        '\0',
    ) || !account_id.is_ascii() {
        return Err(StorageError::Validation(join2("Invalid account_id: ", account_id)));
    }
    Ok(())
}

} // verus!
