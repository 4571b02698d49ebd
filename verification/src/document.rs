use strict_yaml_rust::StrictYaml;
use strict_yaml_rust::StrictYamlEmitter;
use strict_yaml_rust::StrictYamlLoader;
use vstd::prelude::*;

use crate::error::FlightError;
use crate::error::LoadError;
use crate::flightlist::lemma_refused_record_is_there;
use crate::flightlist::loaded;
use crate::flightlist::records_of;
use crate::flightlist::FlightList;
use crate::flightlist::LogView;
use crate::record::FieldView;
use crate::record::Record;
use crate::record::RecordView;

verus! {

#[verifier::external_type_specification]
#[verifier::external_body]
pub struct ExStrictYaml(StrictYaml);

/// What a text in YAML holds at one place.
#[derive(Debug)]
pub enum Node {
    /// A text, which may be empty.
    Text(String),
    /// A list of places.
    List(Vec<Node>),
    /// A table of places under keys, in the order in which they are written.
    Table(Vec<(Node, Node)>),
    /// Nothing that can be read.
    Missing,
}

/// What a text in YAML holds at one place, as plain values.
pub enum NodeView {
    Text(Seq<char>),
    List(Seq<NodeView>),
    Table(Seq<(NodeView, NodeView)>),
    Missing,
}

/// What a place holds, as plain values.
pub open spec fn node_view(node: Node) -> NodeView
    decreases node,
{
    match node {
        Node::Text(text) => NodeView::Text(text@),
        Node::List(items) => NodeView::List(
            Seq::new(
                items@.len(),
                |i: int|
                    if 0 <= i < items@.len() {
                        node_view(items@[i])
                    } else {
                        NodeView::Missing
                    },
            ),
        ),
        Node::Table(pairs) => NodeView::Table(
            Seq::new(
                pairs@.len(),
                |i: int|
                    if 0 <= i < pairs@.len() {
                        (node_view(pairs@[i].0), node_view(pairs@[i].1))
                    } else {
                        (NodeView::Missing, NodeView::Missing)
                    },
            ),
        ),
        Node::Missing => NodeView::Missing,
    }
}

impl View for Node {
    type V = NodeView;

    open spec fn view(&self) -> NodeView {
        node_view(*self)
    }
}

/// A table holds, pair by pair, what its keys and its values hold.
pub proof fn lemma_table_holds_its_pairs(node: Node)
    requires
        node is Table,
    ensures
        node@ is Table,
        node@->Table_0.len() == node->Table_0@.len(),
        forall|i: int|
            0 <= i < node->Table_0@.len() ==> (#[trigger] node@->Table_0[i]) == (
                node->Table_0@[i].0@,
                node->Table_0@[i].1@,
            ),
{
}

/// A list holds, item by item, what its items hold.
pub proof fn lemma_list_holds_its_items(node: Node)
    requires
        node is List,
    ensures
        node@ is List,
        node@->List_0.len() == node->List_0@.len(),
        forall|i: int|
            0 <= i < node->List_0@.len() ==> (#[trigger] node@->List_0[i]) == node->List_0@[i]@,
{
}

/// The places of a list as plain values.
pub open spec fn nodes_of(nodes: Seq<Node>) -> Seq<NodeView> {
    Seq::new(nodes.len(), |i: int| nodes[i]@)
}

/// The documents that `strict_yaml_rust` reads from a text, or the message with which it
/// refuses the text.
pub uninterp spec fn parsed_yaml(text: Seq<char>) -> Result<Seq<NodeView>, Seq<char>>;

/// The text that `strict_yaml_rust` writes for what a place holds, in compact notation.
pub uninterp spec fn written_yaml(node: NodeView) -> Seq<char>;

/// Copies what a `StrictYaml` holds, variant by variant: the scalar, the items of an array,
/// the keys and the values of a hash in their order, and the bad value.
#[verifier::external_body]
fn node_of(yaml: &StrictYaml) -> (node: Node) {
    match yaml {
        StrictYaml::String(text) => Node::Text(text.clone()),
        StrictYaml::Array(items) => Node::List(items.iter().map(node_of).collect()),
        StrictYaml::Hash(pairs) => Node::Table(
            pairs.iter().map(|(key, value)| (node_of(key), node_of(value))).collect(),
        ),
        StrictYaml::BadValue => Node::Missing,
    }
}

/// Makes the `StrictYaml` that holds what a place holds, variant by variant.
#[verifier::external_body]
fn yaml_of(node: &Node) -> (yaml: StrictYaml) {
    match node {
        Node::Text(text) => StrictYaml::String(text.clone()),
        Node::List(items) => StrictYaml::Array(items.iter().map(yaml_of).collect()),
        Node::Table(pairs) => StrictYaml::Hash(
            pairs.iter().map(|pair| (yaml_of(&pair.0), yaml_of(&pair.1))).collect(),
        ),
        Node::Missing => StrictYaml::BadValue,
    }
}

/// `StrictYamlLoader::load_from_str`, the documents copied out and the error as its message.
/// Trusted: what is read depends on the text alone.
#[verifier::external_body]
fn parse_yaml(text: &str) -> (read: Result<Vec<Node>, String>)
    ensures
        read matches Ok(documents) ==> parsed_yaml(text@) is Ok && parsed_yaml(text@)->Ok_0
            == nodes_of(documents@),
        read matches Err(message) ==> parsed_yaml(text@) is Err && parsed_yaml(text@)->Err_0
            == message@,
{
    match StrictYamlLoader::load_from_str(text) {
        Ok(documents) => Ok(documents.iter().map(node_of).collect()),
        Err(error) => Err(error.to_string()),
    }
}

/// `StrictYamlEmitter::dump`, in compact notation, into a text. Trusted: what is written
/// depends on what the place holds alone.
#[verifier::external_body]
fn written(node: &Node) -> (text: String)
    ensures
        text@ == written_yaml(node@),
{
    let mut text = String::new();
    let mut emitter = StrictYamlEmitter::new(&mut text);
    emitter.compact(true);
    emitter.dump(&yaml_of(node)).unwrap_or(());
    text
}

/// Why a text gives no logbook, as plain values.
pub enum DocumentErrorView {
    Syntax(Seq<char>),
    Empty,
    NotAList,
    Record { index: usize, record: Seq<char>, cause: FlightError },
}

/// Why a text gives no logbook.
#[derive(Debug, PartialEq, Eq)]
pub enum DocumentError {
    /// The text is no YAML. The message is that of the parser, with the line and the
    /// column.
    Syntax(String),
    /// The text holds no document.
    Empty,
    /// The first document of the text is no list.
    NotAList,
    /// An entry of the list was refused: which one, counted from zero; the entry, written
    /// out again; and the reason.
    Record { index: usize, record: String, cause: FlightError },
}

impl View for DocumentError {
    type V = DocumentErrorView;

    open spec fn view(&self) -> DocumentErrorView {
        match self {
            DocumentError::Syntax(message) => DocumentErrorView::Syntax(message@),
            DocumentError::Empty => DocumentErrorView::Empty,
            DocumentError::NotAList => DocumentErrorView::NotAList,
            DocumentError::Record { index, record, cause } => DocumentErrorView::Record {
                index: *index,
                record: record@,
                cause: *cause,
            },
        }
    }
}

/// The fields that a table gives to a record: each text that stands under a text, and a
/// mark for whatever else stands under a text and can be read.
pub open spec fn fields_of(pairs: Seq<(NodeView, NodeView)>) -> Seq<(Seq<char>, FieldView)>
    decreases pairs.len(),
{
    if pairs.len() == 0 {
        Seq::empty()
    } else {
        let before = fields_of(pairs.drop_last());
        match pairs.last() {
            (NodeView::Text(key), NodeView::Text(text)) => before.push((key, FieldView::Text(text))),
            (NodeView::Text(key), NodeView::Missing) => before,
            (NodeView::Text(key), _) => before.push((key, FieldView::Nested)),
            _ => before,
        }
    }
}

/// The record of an entry of the log: the fields of a table, and nothing for an entry that
/// is no table.
pub open spec fn record_of_node(entry: NodeView) -> RecordView {
    match entry {
        NodeView::Table(pairs) => RecordView { entries: fields_of(pairs) },
        _ => RecordView { entries: Seq::empty() },
    }
}

/// The records of the entries of the log.
pub open spec fn records_of_nodes(entries: Seq<NodeView>) -> Seq<RecordView> {
    Seq::new(entries.len(), |i: int| record_of_node(entries[i]))
}

/// The logbook that documents give. The first document has to be a list; its entries are
/// read as records, one after the other.
pub open spec fn documents_outcome(documents: Seq<NodeView>) -> Result<LogView, DocumentErrorView> {
    if documents.len() == 0 {
        Err(DocumentErrorView::Empty)
    } else {
        match documents[0] {
            NodeView::List(entries) => match loaded(records_of_nodes(entries)) {
                Ok(log) => Ok(log),
                Err(error) => Err(
                    DocumentErrorView::Record {
                        index: error.index,
                        record: written_yaml(entries[error.index as int]),
                        cause: error.cause,
                    },
                ),
            },
            _ => Err(DocumentErrorView::NotAList),
        }
    }
}

/// The logbook that a text gives: that of its documents, where the text is YAML.
pub open spec fn yaml_outcome(text: Seq<char>) -> Result<LogView, DocumentErrorView> {
    match parsed_yaml(text) {
        Ok(documents) => documents_outcome(documents),
        Err(message) => Err(DocumentErrorView::Syntax(message)),
    }
}

/// The record of an entry of the log.
pub fn record_of(entry: &Node) -> (record: Record)
    ensures
        record@ == record_of_node(entry@),
{
    let mut record = Record::new();
    match entry {
        Node::Table(pairs) => {
            let ghost all = entry@->Table_0;
            let mut index: usize = 0;
            proof {
                lemma_table_holds_its_pairs(*entry);
                assert(all.take(0) =~= Seq::<(NodeView, NodeView)>::empty());
            }
            while index < pairs.len()
                invariant
                    index <= pairs.len(),
                    entry@ == NodeView::Table(all),
                    all.len() == pairs@.len(),
                    forall|i: int|
                        0 <= i < pairs@.len() ==> all[i] == ((#[trigger] pairs@[i]).0@, pairs@[i].1@),
                    record@.entries == fields_of(all.take(index as int)),
                decreases pairs.len() - index,
            {
                proof {
                    assert(all.take(index + 1).drop_last() =~= all.take(index as int));
                    assert(all.take(index + 1).last() == (
                        pairs@[index as int].0@,
                        pairs@[index as int].1@,
                    ));
                }
                match (&pairs[index].0, &pairs[index].1) {
                    (Node::Text(key), Node::Text(text)) => {
                        record.set_text(key.as_str(), text.as_str());
                    },
                    (Node::Text(key), Node::Missing) => {},
                    (Node::Text(key), _) => {
                        record.set_nested(key.as_str());
                    },
                    _ => {},
                }
                index += 1;
            }
            assert(all.take(index as int) =~= all);
        },
        _ => {},
    }
    record
}

impl FlightList {
    /// Reads a logbook from a text in YAML: the first document of the text is a list, and
    /// each entry of the list is a flight or a session on a simulator, with its fields
    /// under their keys.
    pub fn load_from_yaml(text: &str) -> (log: Result<FlightList, DocumentError>)
        ensures
            log matches Ok(list) ==> yaml_outcome(text@) == Ok::<LogView, DocumentErrorView>(list@)
                && list.aircrafts@.is_consistent(),
            log matches Err(error) ==> yaml_outcome(text@) == Err::<LogView, DocumentErrorView>(
                error@,
            ),
    {
        match parse_yaml(text) {
            Ok(documents) => FlightList::load_from_documents(&documents),
            Err(message) => Err(DocumentError::Syntax(message)),
        }
    }

    /// Reads a logbook from the documents of a text: the first is a list, and each entry
    /// of the list is a flight or a session on a simulator, with its fields under their
    /// keys. The first entry that is refused ends the reading.
    pub fn load_from_documents(documents: &Vec<Node>) -> (log: Result<FlightList, DocumentError>)
        ensures
            log matches Ok(list) ==> documents_outcome(nodes_of(documents@)) == Ok::<
                LogView,
                DocumentErrorView,
            >(list@) && list.aircrafts@.is_consistent(),
            log matches Err(error) ==> documents_outcome(nodes_of(documents@)) == Err::<
                LogView,
                DocumentErrorView,
            >(error@),
    {
        if documents.len() == 0 {
            return Err(DocumentError::Empty);
        }
        let entries = match &documents[0] {
            Node::List(entries) => entries,
            _ => {
                return Err(DocumentError::NotAList);
            },
        };
        let ghost all = nodes_of(documents@)[0]->List_0;
        proof {
            lemma_list_holds_its_items(documents@[0]);
        }
        let mut records: Vec<Record> = Vec::new();
        let mut index: usize = 0;
        while index < entries.len()
            invariant
                index <= entries.len(),
                all.len() == entries@.len(),
                forall|i: int| 0 <= i < entries@.len() ==> all[i] == (#[trigger] entries@[i])@,
                records@.len() == index,
                forall|i: int| 0 <= i < index ==> (#[trigger] records@[i])@ == record_of_node(all[i]),
            decreases entries.len() - index,
        {
            records.push(record_of(&entries[index]));
            index += 1;
        }
        assert(records_of(records@) =~= records_of_nodes(all));
        match FlightList::load_from_records(&records) {
            Ok(list) => Ok(list),
            Err(error) => {
                proof {
                    lemma_refused_record_is_there(records_of(records@));
                }
                Err(
                    DocumentError::Record {
                        index: error.index,
                        record: written(&entries[error.index]),
                        cause: error.cause,
                    },
                )
            },
        }
    }
}

} // verus!
