//! The two configurations of a run: which kinds of syntax node are indexed
//! for each extension, and which extensions are ingested at all.
use vstd::prelude::*;
use crate::error::IndexError;
use crate::json::{
    json_views, json_views_positions, member_views, member_views_positions, parsed_document, Json,
    JsonView, Member,
};
use crate::language::{normalise_extension, normalised};
use crate::text::{contains_text, same_text};

verus! {

/// The node kinds indexed for one extension. The entry `ALL` stands for
/// every kind.
#[derive(Debug, PartialEq, Eq)]
pub struct IndexTypes {
    pub extension: String,
    pub kinds: Vec<String>,
}

/// The index-type configuration: for each extension the node kinds that
/// become entities.
#[derive(Debug, PartialEq, Eq)]
pub struct IndexTypesConfig {
    pub entries: Vec<IndexTypes>,
}

/// The file-type configuration: the extensions whose files are parsed into
/// entities and those whose files are chunked as plain text. The entry
/// `ALL` stands for every extension.
#[derive(Debug, PartialEq, Eq)]
pub struct FileTypesConfig {
    pub supported: Vec<String>,
    pub unsupported: Vec<String>,
}

/// What an `IndexTypes` holds.
pub struct KindsView {
    pub extension: Seq<char>,
    pub kinds: Seq<Seq<char>>,
}

/// What an `IndexTypesConfig` holds: its entries, in order.
pub struct IndexTypesView {
    pub entries: Seq<KindsView>,
}

/// What a `FileTypesConfig` holds.
pub struct FileTypesView {
    pub supported: Seq<Seq<char>>,
    pub unsupported: Seq<Seq<char>>,
}

impl View for IndexTypes {
    type V = KindsView;

    open spec fn view(&self) -> KindsView {
        KindsView { extension: self.extension@, kinds: self.kinds.deep_view() }
    }
}

impl View for IndexTypesConfig {
    type V = IndexTypesView;

    open spec fn view(&self) -> IndexTypesView {
        IndexTypesView { entries: Seq::new(self.entries@.len(), |i: int| self.entries@[i]@) }
    }
}

impl View for FileTypesConfig {
    type V = FileTypesView;

    open spec fn view(&self) -> FileTypesView {
        FileTypesView {
            supported: self.supported.deep_view(),
            unsupported: self.unsupported.deep_view(),
        }
    }
}

/// The strings among the elements of a JSON array, in their order.
pub open spec fn texts_in(items: Seq<JsonView>) -> Seq<Seq<char>>
    decreases items.len(),
{
    if items.len() == 0 {
        Seq::empty()
    } else {
        let before = texts_in(items.drop_last());
        match items.last().text() {
            Some(t) => before.push(t),
            None => before,
        }
    }
}

/// The kinds that a member of the index-type document lists: the strings of
/// its array, and nothing where it is no array.
pub open spec fn kinds_listed(value: JsonView) -> Seq<Seq<char>> {
    match value.items() {
        Some(items) => texts_in(items),
        None => Seq::empty(),
    }
}

/// The kinds of the first entry at or after `from` that is written for the
/// extension `key`.
pub open spec fn kinds_from(entries: Seq<KindsView>, key: Seq<char>, from: int) -> Option<
    Seq<Seq<char>>,
>
    decreases entries.len() - from,
{
    if from < 0 || from >= entries.len() {
        None
    } else if entries[from].extension == key {
        Some(entries[from].kinds)
    } else {
        kinds_from(entries, key, from + 1)
    }
}

/// A list of names admits `name`: it holds the name itself or `ALL`.
pub open spec fn admits(names: Seq<Seq<char>>, name: Seq<char>) -> bool {
    names.contains(name) || names.contains("ALL"@)
}

/// Collects the strings of a JSON array.
fn collect_texts(items: &Vec<Json>) -> (texts: Vec<String>)
    ensures
        texts.deep_view() == texts_in(json_views(items@)),
{
    let ghost views = json_views(items@);
    proof {
        json_views_positions(items@);
    }
    let mut texts: Vec<String> = Vec::new();
    let mut i: usize = 0;
    assert(views.take(0) =~= Seq::empty());
    while i < items.len()
        invariant
            i <= items.len(),
            views.len() == items.len(),
            forall|j: int| 0 <= j < items.len() ==> views[j] == #[trigger] items@[j]@,
            texts.deep_view() == texts_in(views.take(i as int)),
        decreases items.len() - i,
    {
        let ghost before = texts.deep_view();
        assert(views.take(i + 1).drop_last() =~= views.take(i as int));
        assert(views.take(i + 1).last() == items@[i as int]@);
        match items[i].as_text() {
            Some(t) => {
                texts.push(t.to_owned());
                assert(texts.deep_view() =~= before.push(t@));
            },
            None => {},
        }
        i += 1;
    }
    assert(views.take(items.len() as int) =~= views);
    texts
}

impl IndexTypesView {
    /// The kinds written for the extension `key`, where the configuration has
    /// an entry for it.
    pub open spec fn kinds_of(self, key: Seq<char>) -> Option<Seq<Seq<char>>> {
        kinds_from(self.entries, key, 0)
    }

    /// A node of kind `kind` in a file of extension `extension` is indexed as
    /// an entity.
    pub open spec fn indexes(self, extension: Seq<char>, kind: Seq<char>) -> bool {
        match self.kinds_of(normalised(extension)) {
            Some(kinds) => admits(kinds, kind),
            None => false,
        }
    }

    /// The document `document` says what this configuration holds: one entry
    /// for each member, in order, with the kinds that the member lists.
    pub open spec fn reads(self, document: JsonView) -> bool {
        &&& document matches JsonView::Object(members)
        &&& self.entries.len() == members.len()
        &&& forall|i: int|
            0 <= i < members.len() ==> (#[trigger] self.entries[i]) == (KindsView {
                extension: members[i].key,
                kinds: kinds_listed(members[i].value),
            })
    }
}

impl IndexTypesConfig {
    /// Decides whether a node of kind `kind` in a file of extension
    /// `extension` is indexed as an entity.
    pub fn is_indexed(&self, extension: &str, kind: &str) -> (indexed: bool)
        ensures
            indexed == self@.indexes(extension@, kind@),
    {
        let key = normalise_extension(extension);
        let mut i: usize = 0;
        while i < self.entries.len()
            invariant
                i <= self.entries.len(),
                key@ == normalised(extension@),
                self@.kinds_of(key@) == kinds_from(self@.entries, key@, i as int),
            decreases self.entries.len() - i,
        {
            assert(self@.entries[i as int] == self.entries@[i as int]@);
            if same_text(self.entries[i].extension.as_str(), key.as_str()) {
                let kinds = &self.entries[i].kinds;
                return contains_text(kinds, kind) || contains_text(kinds, "ALL");
            }
            i += 1;
        }
        false
    }

    /// Reads the configuration from its JSON document, an object keyed by
    /// extension. Any other document is malformed.
    pub fn from_json(document: &Json) -> (config: Result<IndexTypesConfig, IndexError>)
        ensures
            config is Ok <==> document@ is Object,
            config matches Ok(c) ==> c@.reads(document@),
            config matches Err(e) ==> e == IndexError::IndexTypesMalformed,
    {
        match document {
            Json::Object(members) => {
                let ghost views = member_views(members@);
                proof {
                    member_views_positions(members@);
                }
                let mut entries: Vec<IndexTypes> = Vec::new();
                let mut i: usize = 0;
                while i < members.len()
                    invariant
                        i <= members.len(),
                        entries@.len() == i,
                        views.len() == members.len(),
                        forall|j: int|
                            0 <= j < members.len() ==> views[j] == #[trigger] members@[j]@,
                        forall|j: int|
                            0 <= j < i ==> (#[trigger] entries@[j])@ == (KindsView {
                                extension: views[j].key,
                                kinds: kinds_listed(views[j].value),
                            }),
                    decreases members.len() - i,
                {
                    let member: &Member = &members[i];
                    assert(views[i as int] == member@);
                    let kinds = match member.value.as_list() {
                        Some(items) => collect_texts(items),
                        None => Vec::new(),
                    };
                    assert(kinds.deep_view() =~= kinds_listed(member@.value));
                    entries.push(IndexTypes { extension: member.key.clone(), kinds });
                    i += 1;
                }
                let config = IndexTypesConfig { entries };
                assert(config@.reads(document@)) by {
                    assert forall|j: int| 0 <= j < views.len() implies (
                    #[trigger] config@.entries[j]) == (KindsView {
                        extension: views[j].key,
                        kinds: kinds_listed(views[j].value),
                    }) by {
                        assert(config@.entries[j] == entries@[j]@);
                    }
                }
                Ok(config)
            },
            _ => Err(IndexError::IndexTypesMalformed),
        }
    }

    /// Reads the configuration from the text of its file.
    pub fn parse(text: &str) -> (config: Result<IndexTypesConfig, IndexError>)
        ensures
            config is Ok <==> (parsed_document(text@) matches Some(d) && d is Object),
            config matches Ok(c) ==> c@.reads(parsed_document(text@).unwrap()),
            config matches Err(e) ==> e == IndexError::IndexTypesMalformed,
    {
        match Json::parse(text) {
            Some(document) => IndexTypesConfig::from_json(&document),
            None => Err(IndexError::IndexTypesMalformed),
        }
    }
}

impl FileTypesView {
    /// Files of this extension are parsed into entities.
    pub open spec fn supports(self, extension: Seq<char>) -> bool {
        admits(self.supported, extension)
    }

    /// Files of this extension are chunked as plain text.
    pub open spec fn chunks(self, extension: Seq<char>) -> bool {
        admits(self.unsupported, extension)
    }

    /// The document `document` says what this configuration holds: the
    /// strings of its arrays `supported` and `unsupported`.
    pub open spec fn reads(self, document: JsonView) -> bool {
        &&& document.items_of("supported"@) matches Some(supported)
        &&& document.items_of("unsupported"@) matches Some(unsupported)
        &&& self.supported == texts_in(supported)
        &&& self.unsupported == texts_in(unsupported)
    }
}

impl FileTypesConfig {
    /// Decides whether files of this extension are parsed into entities.
    pub fn is_supported(&self, extension: &str) -> (supported: bool)
        ensures
            supported == self@.supports(extension@),
    {
        contains_text(&self.supported, extension) || contains_text(&self.supported, "ALL")
    }

    /// Decides whether files of this extension are chunked as plain text.
    pub fn is_unsupported(&self, extension: &str) -> (chunked: bool)
        ensures
            chunked == self@.chunks(extension@),
    {
        contains_text(&self.unsupported, extension) || contains_text(&self.unsupported, "ALL")
    }

    /// Reads the configuration from its JSON document, an object with the
    /// two arrays `supported` and `unsupported`. A document without them is
    /// malformed.
    pub fn from_json(document: &Json) -> (config: Result<FileTypesConfig, IndexError>)
        ensures
            config is Ok <==> (document@.items_of("supported"@) is Some && document@.items_of(
                "unsupported"@,
            ) is Some),
            config matches Ok(c) ==> c@.reads(document@),
            config matches Err(e) ==> e == IndexError::FileTypesMalformed,
    {
        let supported = match document.get_list("supported") {
            Some(items) => collect_texts(items),
            None => { return Err(IndexError::FileTypesMalformed); },
        };
        let unsupported = match document.get_list("unsupported") {
            Some(items) => collect_texts(items),
            None => { return Err(IndexError::FileTypesMalformed); },
        };
        Ok(FileTypesConfig { supported, unsupported })
    }

    /// Reads the configuration from the text of its file.
    pub fn parse(text: &str) -> (config: Result<FileTypesConfig, IndexError>)
        ensures
            config is Ok <==> (parsed_document(text@) matches Some(d) && d.items_of(
                "supported"@,
            ) is Some && d.items_of("unsupported"@) is Some),
            config matches Ok(c) ==> c@.reads(parsed_document(text@).unwrap()),
            config matches Err(e) ==> e == IndexError::FileTypesMalformed,
    {
        match Json::parse(text) {
            Some(document) => FileTypesConfig::from_json(&document),
            None => Err(IndexError::FileTypesMalformed),
        }
    }
}

} // verus!
