//! Configuration of the storage backend.

use vstd::prelude::*;
use vstd::string::*;

use crate::error::{ErrV, StorageError};
use crate::text::join2;

verus! {

/// The text under a name, in a part of a section of a TOML document: `None`
/// where there is none, and an error in words where the document is not TOML.
pub uninterp spec fn toml_text(
    document: Seq<char>,
    section: Seq<char>,
    part: Seq<char>,
    name: Seq<char>,
) -> Result<Option<Seq<char>>, Seq<char>>;

/// The model of what a TOML document says.
pub open spec fn res_opt_text(r: Result<Option<String>, String>) -> Result<
    Option<Seq<char>>,
    Seq<char>,
> {
    match r {
        Ok(Some(s)) => Ok(Some(s@)),
        Ok(None) => Ok(None),
        Err(m) => Err(m@),
    }
}

/// Parses a document as `toml::Value`, and follows three names with
/// `toml::Value::get` to a `toml::Value::as_str`. An error is the one that the
/// parser writes.
#[verifier::external_body]
fn read_toml(document: &str, section: &str, part: &str, name: &str) -> (r: Result<
    Option<String>,
    String,
>)
    ensures
        res_opt_text(r) == toml_text(document@, section@, part@, name@),
{
    let value: toml::Value = document.parse().map_err(|e: toml::de::Error| e.to_string())?;
    let found = value.get(section).and_then(|s| s.get(part)).and_then(|p| p.get(name));
    Ok(found.and_then(|v| v.as_str()).map(str::to_owned))
}

/// The configuration of the storage backend.
#[derive(Debug)]
pub struct MongoStorageConfig {
    /// The connection string (mongodb://...).
    pub connection_string: String,
    /// The most connections for data operations.
    pub max_connections: u32,
    /// The most connections for catalog and management operations.
    pub max_catalog_connections: u32,
}

/// The most connections for data operations, where nothing is said.
pub fn default_max_connections() -> (r: u32)
    ensures
        r == 50,
{
    50
}

/// The most connections for catalog and management operations, where nothing
/// is said.
pub fn default_max_catalog_connections() -> (r: u32)
    ensures
        r == 20,
{
    20
}

/// The connection string that a configuration gives, from what its document
/// says.
pub open spec fn connection_given(found: Result<Option<Seq<char>>, Seq<char>>) -> Result<
    Seq<char>,
    ErrV,
> {
    match found {
        Ok(Some(s)) => Ok(s),
        Ok(None) => Ok("mongodb://localhost:27017"@),
        Err(m) => Err(ErrV::Internal("Cannot parse config: "@ + m)),
    }
}

/// The connection string to use, from what the document of a configuration
/// says.
pub fn choose_connection(found: Result<Option<String>, String>) -> (r: Result<
    String,
    StorageError,
>)
    ensures
        crate::error::res_text(r) == connection_given(res_opt_text(found)),
{
    match found {
        Ok(Some(s)) => Ok(s),
        Ok(None) => Ok("mongodb://localhost:27017".to_owned()),
        Err(m) => Err(StorageError::Internal(join2("Cannot parse config: ", m.as_str()))),
    }
}

/// The connection string that the document of a configuration gives under
/// `storage.mongodb.connection_string`, or that of a server on this machine
/// where it gives none.
pub fn configured_connection(document: &str) -> (r: Result<String, StorageError>)
    ensures
        crate::error::res_text(r) == connection_given(
            toml_text(document@, "storage"@, "mongodb"@, "connection_string"@),
        ),
{
    choose_connection(read_toml(document, "storage", "mongodb", "connection_string"))
}

impl Clone for MongoStorageConfig {
    fn clone(&self) -> (r: MongoStorageConfig)
        ensures
            r.connection_string@ == self.connection_string@,
            r.max_connections == self.max_connections,
            r.max_catalog_connections == self.max_catalog_connections,
    {
        MongoStorageConfig {
            connection_string: self.connection_string.clone(),
            max_connections: self.max_connections,
            max_catalog_connections: self.max_catalog_connections,
        }
    }
}

impl MongoStorageConfig {
    /// A configuration; what is not said has its default.
    pub fn new(
        connection_string: String,
        max_connections: Option<u32>,
        max_catalog_connections: Option<u32>,
    ) -> (r: MongoStorageConfig)
        ensures
            r.connection_string == connection_string,
            r.max_connections == (match max_connections {
                Some(n) => n,
                None => 50,
            }),
            r.max_catalog_connections == (match max_catalog_connections {
                Some(n) => n,
                None => 20,
            }),
    {
        MongoStorageConfig {
            connection_string,
            max_connections: match max_connections {
                Some(n) => n,
                None => default_max_connections(),
            },
            max_catalog_connections: match max_catalog_connections {
                Some(n) => n,
                None => default_max_catalog_connections(),
            },
        }
    }

    /// The connection string.
    pub fn connection_config(&self) -> (r: &str)
        ensures
            r@ == self.connection_string@,
    {
        self.connection_string.as_str()
    }

    /// The most connections for data operations.
    pub fn max_connections(&self) -> (r: u32)
        ensures
            r == self.max_connections,
    {
        self.max_connections
    }

    /// The most connections for catalog and management operations.
    pub fn max_catalog_connections(&self) -> (r: u32)
        ensures
            r == self.max_catalog_connections,
    {
        self.max_catalog_connections
    }
}

} // verus!
