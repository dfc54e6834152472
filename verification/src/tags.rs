//! Tags of resources.

use vstd::prelude::*;
use vstd::string::*;

use crate::bson::{doc1, doc_seq, obj1, text_seq, Bson, BsonV, DocV, Document};
use crate::management::{by2, by_key, filter2, key_filter, key_part, read_key_part};
use crate::protocol::{in_catalog, sorted_by, Command, CommandV, Paging, Place};
use crate::script::{add_line, line_seq, must, no_lines, Line};

verus! {

/// A tag of a resource.
#[derive(Debug, PartialEq)]
pub struct Tag {
    pub key: String,
    pub value: String,
}

/// The models of a list of tags.
pub open spec fn tag_seq(v: Seq<Tag>) -> Seq<(Seq<char>, Seq<char>)> {
    Seq::new(v.len(), |i: int| (v[i].key@, v[i].value@))
}

/// The filter that finds a tag of a resource.
pub open spec fn tag_filter_of(arn: Seq<char>, key: Seq<char>) -> DocV {
    by_key(by2("resource_arn"@, arn, "tag_key"@, key))
}

/// The document of a tag of a resource.
pub open spec fn tag_document_of(arn: Seq<char>, tag: (Seq<char>, Seq<char>)) -> DocV {
    tag_filter_of(arn, tag.0).with("tag_value"@, BsonV::Str(tag.1))
}

/// The command that sets a tag of a resource.
pub open spec fn set_tag_of(arn: Seq<char>, tag: (Seq<char>, Seq<char>)) -> CommandV {
    CommandV::Update {
        at: in_catalog("tags"@),
        filter: tag_filter_of(arn, tag.0),
        update: doc1("$set"@, obj1("tag_value"@, BsonV::Str(tag.1))),
        upsert: true,
    }
}

/// The commands that set tags of a resource, all of which have to succeed.
pub open spec fn tag_lines(arn: Seq<char>, tags: Seq<(Seq<char>, Seq<char>)>) -> Seq<
    (CommandV, bool),
> {
    Seq::new(tags.len(), |i: int| (set_tag_of(arn, tags[i]), true))
}

/// The commands that remove tags of a resource, all of which have to succeed.
pub open spec fn untag_lines(arn: Seq<char>, keys: Seq<Seq<char>>) -> Seq<(CommandV, bool)> {
    Seq::new(
        keys.len(),
        |i: int|
            (
                CommandV::DeleteOne {
                    at: in_catalog("tags"@),
                    filter: tag_filter_of(arn, keys[i]),
                },
                true,
            ),
    )
}

fn tag_filter(arn: &str, key: &str) -> (r: Document)
    ensures
        r@ == tag_filter_of(arn@, key@),
{
    key_filter(filter2("resource_arn", arn, "tag_key", key))
}

/// Appends the commands that set tags of a resource.
pub fn add_tags(lines: &mut Vec<Line>, arn: &str, tags: &Vec<Tag>)
    ensures
        line_seq(final(lines)@) == line_seq(old(lines)@) + tag_lines(arn@, tag_seq(tags@)),
{
    let ghost before = line_seq(lines@);
    let mut i: usize = 0;
    assert(before =~= before + tag_lines(arn@, tag_seq(tags@)).take(0));
    while i < tags.len()
        invariant
            i <= tags.len(),
            line_seq(lines@) == before + tag_lines(arn@, tag_seq(tags@)).take(i as int),
        decreases tags.len() - i,
    {
        let ghost all = tag_lines(arn@, tag_seq(tags@));
        let t = &tags[i];
        let set = Bson::obj1("tag_value", Bson::text(t.value.as_str()));
        let command = Command::Update {
            at: Place::catalog("tags"),
            filter: tag_filter(arn, t.key.as_str()),
            update: Document::new().with("$set", set),
            upsert: true,
        };
        assert(command@ == all[i as int].0);
        add_line(lines, must(command));
        assert((before + all.take(i as int)).push(all[i as int]) =~= before + all.take(i + 1));
        i += 1;
    }
    assert(tag_lines(arn@, tag_seq(tags@)).take(tags@.len() as int) =~= tag_lines(
        arn@,
        tag_seq(tags@),
    ));
}

/// The script that sets tags of a resource.
pub fn tag_resource(arn: &str, tags: &Vec<Tag>) -> (r: Vec<Line>)
    ensures
        line_seq(r@) == tag_lines(arn@, tag_seq(tags@)),
{
    let mut lines = no_lines();
    add_tags(&mut lines, arn, tags);
    assert(Seq::<(CommandV, bool)>::empty() + tag_lines(arn@, tag_seq(tags@)) =~= tag_lines(
        arn@,
        tag_seq(tags@),
    ));
    lines
}

/// The script that removes tags of a resource.
pub fn untag_resource(arn: &str, keys: &Vec<String>) -> (r: Vec<Line>)
    ensures
        line_seq(r@) == untag_lines(arn@, text_seq(keys@)),
{
    let mut lines = no_lines();
    let ghost all = untag_lines(arn@, text_seq(keys@));
    let mut i: usize = 0;
    assert(all.take(0) =~= Seq::empty());
    while i < keys.len()
        invariant
            i <= keys.len(),
            all == untag_lines(arn@, text_seq(keys@)),
            line_seq(lines@) == all.take(i as int),
        decreases keys.len() - i,
    {
        let command = Command::DeleteOne {
            at: Place::catalog("tags"),
            filter: tag_filter(arn, keys[i].as_str()),
        };
        assert(command@ == all[i as int].0);
        add_line(&mut lines, must(command));
        assert(all.take(i as int).push(all[i as int]) =~= all.take(i + 1));
        i += 1;
    }
    assert(all.take(keys@.len() as int) =~= all);
    lines
}

/// The filter that finds the tags of a resource.
pub open spec fn tags_filter_of(arn: Seq<char>) -> DocV {
    doc1("_id.resource_arn"@, BsonV::Str(arn))
}

/// The filter that finds the tags of a resource.
pub fn tags_filter(arn: &str) -> (r: Document)
    ensures
        r@ == tags_filter_of(arn@),
{
    Document::new().with("_id.resource_arn", Bson::text(arn))
}

/// The command that lists the tags of a resource.
pub open spec fn list_tags_of(arn: Seq<char>) -> CommandV {
    CommandV::Find {
        at: in_catalog("tags"@),
        filter: tags_filter_of(arn),
        paging: sorted_by(doc1("_id.tag_key"@, BsonV::Int32(1))),
    }
}

/// The command that lists the tags of a resource.
pub fn list_tags_command(arn: &str) -> (r: Command)
    ensures
        r@ == list_tags_of(arn@),
{
    Command::Find {
        at: Place::catalog("tags"),
        filter: tags_filter(arn),
        paging: Paging::sorted(Document::new().with("_id.tag_key", Bson::Int32(1))),
    }
}

/// The key of the tag that a document describes; it is empty where it is
/// missing.
pub open spec fn tag_key_of(d: DocV) -> Seq<char> {
    match key_part(d, "tag_key"@) {
        Some(k) => k,
        None => ""@,
    }
}

/// The tags that documents describe; what is missing is empty.
pub open spec fn tags_of(docs: Seq<DocV>) -> Seq<(Seq<char>, Seq<char>)> {
    Seq::new(docs.len(), |i: int| (tag_key_of(docs[i]), docs[i].str_or("tag_value"@, ""@)))
}

/// Reads the tags that documents describe.
pub fn read_tags(docs: &Vec<Document>) -> (r: Vec<Tag>)
    ensures
        tag_seq(r@) == tags_of(doc_seq(docs@)),
{
    let ghost ds = doc_seq(docs@);
    let mut out: Vec<Tag> = Vec::new();
    let mut i: usize = 0;
    while i < docs.len()
        invariant
            i <= docs.len(),
            ds == doc_seq(docs@),
            out@.len() == i,
            forall|j: int|
                0 <= j < i ==> tag_seq(out@)[j] == #[trigger] tags_of(ds)[j],
        decreases docs.len() - i,
    {
        let ghost before = out@;
        let key = match read_key_part(&docs[i], "tag_key") {
            Some(k) => k.to_owned(),
            None => "".to_owned(),
        };
        out.push(Tag { key, value: docs[i].str_or("tag_value", "") });
        assert forall|j: int| 0 <= j < i + 1 implies tag_seq(out@)[j] == #[trigger] tags_of(
            ds,
        )[j] by {
            if j < i {
                assert(tag_seq(out@)[j] == tag_seq(before)[j]);
            } else {
                assert(ds[j] == docs@[j]@);
            }
        }
        i += 1;
    }
    assert(tag_seq(out@) =~= tags_of(ds));
    out
}

// --- Laws --------------------------------------------------------------------------

/// The document that setting a tag leaves behind is listed as that tag.
pub proof fn law_tag_reads_back(arn: Seq<char>, tag: (Seq<char>, Seq<char>))
    ensures
        tags_of(seq![tag_document_of(arn, tag)]) == seq![tag],
{
    broadcast use crate::bson::group_document_fields;

    reveal_strlit("resource_arn");
    reveal_strlit("tag_key");
    reveal_strlit("tag_value");
    reveal_strlit("_id");
    assert("resource_arn"@.len() == 12 && "tag_key"@.len() == 7 && "tag_value"@.len() == 9);
    assert("_id"@.len() == 3);
    assert(tags_of(seq![tag_document_of(arn, tag)]) =~= seq![tag]);
}

} // verus!
