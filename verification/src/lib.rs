//! Verified core of the MongoDB storage backend: documents, filters, plans and
//! decisions, stated as contracts over mathematical models.

pub mod access_keys;
pub mod accounts;
pub mod administration;
pub mod backup;
pub mod bootstrap;
pub mod bson;
pub mod catalog;
pub mod clock;
pub mod condition;
pub mod config;
pub mod consequences;
pub mod copies;
pub mod create_table;
pub mod crypto;
pub mod data;
pub mod delete_item;
pub mod describe_table;
pub mod effects;
pub mod encoding;
pub mod entries;
pub mod entry;
pub mod error;
pub mod expression;
pub mod follow_up;
pub mod gsi_queue;
pub mod housekeeping;
pub mod identities;
pub mod index_sync;
pub mod item;
pub mod item_json;
pub mod key_info;
pub mod listings;
pub mod lookup;
pub mod management;
pub mod meaning;
pub mod number;
pub mod order;
pub mod point_in_time;
pub mod policies;
pub mod principals;
pub mod protocol;
pub mod put_item;
pub mod query;
pub mod reading;
pub mod records;
pub mod recovery;
pub mod restore_backup;
pub mod restore_table;
pub mod schema;
pub mod schema_json;
pub mod script;
pub mod selection;
pub mod sequence;
pub mod sort_key;
pub mod stream;
pub mod stream_admin;
pub mod stream_record;
pub mod streams;
pub mod table;
pub mod tables;
pub mod tags;
pub mod text;
pub mod transact;
pub mod ttl;
pub mod update_item;
pub mod update_table;
pub mod upkeep;
pub mod walk;
pub mod worker;
pub mod write;
