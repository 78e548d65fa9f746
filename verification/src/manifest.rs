//! Manifest files: how rendered documents are joined into one file, and the
//! checks made of a manifest file before it is applied.

use vstd::prelude::*;

use crate::config::opt_text;
use crate::json::{at_path, field_of, JsonView};
use crate::error::{manifest_error, outcome, AppError, AppErrorView};
use crate::text::{
    chars_of, is_blank, is_ws, lemma_split_piece_within, lemma_trim, lemma_trim_nonblank, push_str,
    ranges_view, split_on, split_ranges, string_from_range, trim, trim_range,
};

verus! {

/// The text of a manifest file holding the given YAML documents: each one
/// after a `---` line.
pub open spec fn framed(docs: Seq<Seq<char>>) -> Seq<char>
    decreases docs.len(),
{
    if docs.len() == 0 {
        seq![]
    } else {
        framed(docs.drop_last()) + "---\n"@ + docs.last()
    }
}

/// Joins YAML documents into one manifest file, each after a `---` line.
pub fn frame_documents(docs: &Vec<String>) -> (out: String)
    ensures
        out@ == framed(docs@.map_values(|d: String| d@)),
{
    let ghost ds = docs@.map_values(|d: String| d@);
    let mut out = String::new();
    let mut i: usize = 0;
    while i < docs.len()
        invariant
            i <= docs@.len(),
            ds == docs@.map_values(|d: String| d@),
            out@ == framed(ds.take(i as int)),
        decreases docs@.len() - i,
    {
        push_str(&mut out, "---\n");
        push_str(&mut out, docs[i].as_str());
        assert(ds.take(i + 1).drop_last() =~= ds.take(i as int));
        i = i + 1;
    }
    assert(ds.take(docs@.len() as int) =~= ds);
    out
}

/// What a manifest document declares of itself: its `apiVersion`, its
/// `kind` and its `metadata.name`, each when present as a string.
#[derive(Debug)]
pub struct ManifestHeader {
    pub api_version: Option<String>,
    pub kind: Option<String>,
    pub name: Option<String>,
}

/// The fields of a manifest header, seen as character sequences.
pub type HeaderView = (Option<Seq<char>>, Option<Seq<char>>, Option<Seq<char>>);

impl View for ManifestHeader {
    type V = HeaderView;

    open spec fn view(&self) -> HeaderView {
        (
            opt_text(self.api_version),
            opt_text(self.kind),
            opt_text(self.name),
        )
    }
}

/// The value `serde_yaml::from_str` reads from the YAML text `doc` as a
/// `serde_json::Value`, or `None` when it refuses the text (text that is not
/// YAML, or YAML that a `serde_json::Value` cannot hold).  Objects are seen
/// as their entries, each key once; strings, arrays, booleans and integers
/// as they are; a null or another number as a value that is neither an
/// object, an array nor a string.
pub uninterp spec fn yaml_value(doc: Seq<char>) -> Option<JsonView>;

/// The message of the error `serde_yaml` gives for the text `doc`.
pub uninterp spec fn yaml_error(doc: Seq<char>) -> Seq<char>;

/// The JSON pointer that follows the object keys `keys`: each one after a
/// `/`.
pub open spec fn pointer_of(keys: Seq<Seq<char>>) -> Seq<char>
    decreases keys.len(),
{
    if keys.len() == 0 {
        seq![]
    } else {
        pointer_of(keys.drop_last()) + "/"@ + keys.last()
    }
}

/// Whether every key is a non-empty run of ASCII letters, so that a JSON
/// pointer reads it as it stands and never as an array index.
pub open spec fn plain_keys(keys: Seq<Seq<char>>) -> bool {
    forall|i: int, j: int|
        0 <= i < keys.len() && 0 <= j < keys[i].len() ==> ('a' <= #[trigger] keys[i][j] <= 'z' || 'A'
            <= keys[i][j] <= 'Z')
}

/// The text at the end of the object keys `keys` from `v`, when there is a
/// string there.
pub open spec fn text_at(v: JsonView, keys: Seq<Seq<char>>) -> Option<Seq<char>> {
    match at_path(v, keys) {
        Some(JsonView::Str(s)) => Some(s),
        _ => None,
    }
}

/// Parses a YAML document with `serde_yaml::from_str` into a
/// `serde_json::Value` and reads the string at the JSON pointer `pointer`
/// with `Value::pointer` and `Value::as_str`; a parse error is handed back
/// as its message (its `Display`).
///
/// Claims that the outcome follows `yaml_value` of the text, and the message
/// is `yaml_error` of it; and that a pointer made of plain keys reaches what
/// following those keys from object to object reaches (the `pointer`
/// source: tokens split at `/`, looked up in objects, read as indices in
/// arrays, which a run of letters never is).  What the parsed value is on
/// given text is left to `serde_yaml`.
#[verifier::external_body]
fn yaml_text_at(doc: &str, pointer: &str) -> (r: Result<Option<String>, String>)
    ensures
        match r {
            Ok(t) => yaml_value(doc@) matches Some(v) && forall|keys: Seq<Seq<char>>|
                #[trigger] pointer_of(keys) == pointer@ && keys.len() > 0 && plain_keys(keys) ==> opt_text(t)
                    == text_at(v, keys),
            Err(m) => yaml_value(doc@) is None && m@ == yaml_error(doc@),
        },
{
    match serde_yaml::from_str::<serde_json::Value>(doc) {
        Ok(v) => Ok(v.pointer(pointer).and_then(serde_json::Value::as_str).map(String::from)),
        Err(e) => Err(e.to_string()),
    }
}

/// Reads the header of a YAML document: the strings at `apiVersion`, `kind`
/// and `metadata.name` of the value it holds, or the parser's message when
/// it holds none.
pub fn read_header(doc: &str) -> (r: Result<ManifestHeader, String>)
    ensures
        match yaml_value(doc@) {
            Some(v) => r matches Ok(h) && h@ == header_of(v),
            None => r matches Err(m) && m@ == yaml_error(doc@),
        },
{
    proof {
        lemma_header_pointers();
    }
    let api_version = match yaml_text_at(doc, "/apiVersion") {
        Err(m) => return Err(m),
        Ok(t) => t,
    };
    let kind = match yaml_text_at(doc, "/kind") {
        Err(m) => return Err(m),
        Ok(t) => t,
    };
    let name = match yaml_text_at(doc, "/metadata/name") {
        Err(m) => return Err(m),
        Ok(t) => t,
    };
    let h = ManifestHeader { api_version, kind, name };
    proof {
        let v = yaml_value(doc@).unwrap();
        lemma_header_texts(v);
        assert(opt_text(h.api_version) == text_at(v, seq!["apiVersion"@]));
        assert(opt_text(h.kind) == text_at(v, seq!["kind"@]));
        assert(opt_text(h.name) == text_at(v, seq!["metadata"@, "name"@]));
    }
    Ok(h)
}

/// Lemma: the pointers of the header fields are made of plain keys.
proof fn lemma_header_pointers()
    ensures
        pointer_of(seq!["apiVersion"@]) == "/apiVersion"@,
        pointer_of(seq!["kind"@]) == "/kind"@,
        pointer_of(seq!["metadata"@, "name"@]) == "/metadata/name"@,
        plain_keys(seq!["apiVersion"@]),
        plain_keys(seq!["kind"@]),
        plain_keys(seq!["metadata"@, "name"@]),
{
    reveal_strlit("apiVersion");
    reveal_strlit("kind");
    reveal_strlit("metadata");
    reveal_strlit("name");
    reveal_strlit("/");
    reveal_strlit("/apiVersion");
    reveal_strlit("/kind");
    reveal_strlit("/metadata/name");
    reveal_with_fuel(pointer_of, 3);
    assert(pointer_of(seq!["apiVersion"@]) =~= "/apiVersion"@);
    assert(pointer_of(seq!["kind"@]) =~= "/kind"@);
    assert(seq!["metadata"@, "name"@].drop_last() =~= seq!["metadata"@]);
    assert(pointer_of(seq!["metadata"@, "name"@]) =~= "/metadata/name"@);
}

/// Lemma: the header fields are the texts at their keys.
proof fn lemma_header_texts(v: JsonView)
    ensures
        header_of(v) == (
            text_at(v, seq!["apiVersion"@]),
            text_at(v, seq!["kind"@]),
            text_at(v, seq!["metadata"@, "name"@]),
        ),
{
    reveal_with_fuel(at_path, 3);
    assert(seq!["metadata"@, "name"@].drop_first() =~= seq!["name"@]);
    assert(seq!["apiVersion"@].drop_first() =~= Seq::<Seq<char>>::empty());
    assert(seq!["kind"@].drop_first() =~= Seq::<Seq<char>>::empty());
    assert(seq!["name"@].drop_first() =~= Seq::<Seq<char>>::empty());
}

/// What a document's header is answered: the first field missing, in the
/// order `apiVersion`, `kind`, `metadata.name`, or an error when one of them
/// is empty.
pub open spec fn header_verdict(h: HeaderView) -> Result<(), AppErrorView> {
    match h.0 {
        None => Err(AppErrorView::Manifest("missing apiVersion"@)),
        Some(api) => match h.1 {
            None => Err(AppErrorView::Manifest("missing kind"@)),
            Some(kind) => match h.2 {
                None => Err(AppErrorView::Manifest(kind + " missing metadata.name"@)),
                Some(name) => if api.len() == 0 || kind.len() == 0 || name.len() == 0 {
                    Err(AppErrorView::Manifest("invalid kubernetes metadata"@))
                } else {
                    Ok(())
                },
            },
        },
    }
}

/// Checks the header of one manifest document.
pub fn check_manifest_header(h: &ManifestHeader) -> (r: Result<(), AppError>)
    ensures
        outcome(r) == header_verdict(h@),
{
    let api = match &h.api_version {
        None => return Err(manifest_error("missing apiVersion")),
        Some(a) => a,
    };
    let kind = match &h.kind {
        None => return Err(manifest_error("missing kind")),
        Some(k) => k,
    };
    let name = match &h.name {
        None => {
            let mut m = kind.clone();
            push_str(&mut m, " missing metadata.name");
            return Err(AppError::Manifest(m));
        },
        Some(n) => n,
    };
    if api.as_str().is_empty() || kind.as_str().is_empty() || name.as_str().is_empty() {
        return Err(manifest_error("invalid kubernetes metadata"));
    }
    Ok(())
}

/// What the documents from `docs` on are answered, `count` of them having
/// been accepted before: blank documents are skipped, the first one that is
/// not YAML or whose header is refused gives the error, and otherwise the
/// number accepted, which must not be zero.
pub open spec fn docs_verdict(docs: Seq<Seq<char>>, count: nat) -> Result<nat, AppErrorView>
    decreases docs.len(),
{
    if docs.len() == 0 {
        if count == 0 {
            Err(AppErrorView::Manifest("no documents found"@))
        } else {
            Ok(count)
        }
    } else {
        let t = trim(docs[0]);
        if t.len() == 0 {
            docs_verdict(docs.drop_first(), count)
        } else {
            match yaml_value(t) {
                None => Err(AppErrorView::Manifest(yaml_error(t))),
                Some(v) => match header_verdict(header_of(v)) {
                    Err(e) => Err(e),
                    Ok(()) => docs_verdict(docs.drop_first(), count + 1),
                },
            }
        }
    }
}

/// Whether the document text `d` is counted by the manifest check: it is
/// not blank, reads as a value, and that value's header is accepted.
pub open spec fn doc_accepted(d: Seq<char>) -> bool {
    trim(d).len() > 0 && match yaml_value(trim(d)) {
        Some(v) => header_verdict(header_of(v)) is Ok,
        None => false,
    }
}

/// Lemma: documents that are all counted make the count.
pub proof fn lemma_docs_accepted(docs: Seq<Seq<char>>, count: nat)
    requires
        count + docs.len() > 0,
        forall|i: int| 0 <= i < docs.len() ==> doc_accepted(#[trigger] docs[i]),
    ensures
        docs_verdict(docs, count) == Ok::<nat, AppErrorView>(count + docs.len()),
    decreases docs.len(),
{
    if docs.len() > 0 {
        assert forall|i: int| 0 <= i < docs.drop_first().len() implies doc_accepted(
            #[trigger] docs.drop_first()[i],
        ) by {
            assert(docs.drop_first()[i] == docs[i + 1]);
        }
        assert(doc_accepted(docs[0]));
        lemma_docs_accepted(docs.drop_first(), count + 1);
    }
}

/// What a manifest file is answered: an error when it is blank, else the
/// verdict on its documents, the pieces between `\n---` separators.
pub open spec fn manifest_verdict(content: Seq<char>) -> Result<nat, AppErrorView> {
    if trim(content).len() == 0 {
        Err(AppErrorView::Manifest("empty manifest"@))
    } else {
        docs_verdict(split_on(content, "\n---"@), 0)
    }
}

/// Checks a manifest file and counts its documents.
pub fn validate_manifest_yaml(content: &str) -> (r: Result<usize, AppError>)
    ensures
        match manifest_verdict(content@) {
            Ok(n) => r matches Ok(m) && m as nat == n,
            Err(e) => r matches Err(x) && x@ == e,
        },
{
    if is_blank(content) {
        return Err(manifest_error("empty manifest"));
    }
    let cs = chars_of(content);
    let sep = chars_of("\n---");
    proof {
        reveal_strlit("\n---");
    }
    let ranges = split_ranges(&cs, &sep);
    let ghost docs = ranges_view(cs@, ranges@);
    let mut count: usize = 0;
    let mut k: usize = 0;
    assert(docs.subrange(0, docs.len() as int) =~= docs);
    while k < ranges.len()
        invariant
            k <= ranges@.len(),
            count <= k,
            docs == ranges_view(cs@, ranges@),
            docs == split_on(content@, "\n---"@),
            trim(content@).len() != 0,
            forall|j: int|
                0 <= j < ranges@.len() ==> #[trigger] ranges@[j].0 <= ranges@[j].1 <= cs@.len(),
            manifest_verdict(content@) == docs_verdict(
                docs.subrange(k as int, docs.len() as int),
                count as nat,
            ),
        decreases ranges@.len() - k,
    {
        let (lo, hi) = ranges[k];
        assert(ranges@[k as int].0 <= ranges@[k as int].1 <= cs@.len());
        let ghost rest = docs.subrange(k as int, docs.len() as int);
        assert(rest[0] == cs@.subrange(lo as int, hi as int));
        assert(rest.drop_first() =~= docs.subrange(k + 1, docs.len() as int));
        let (a, b) = trim_range(&cs, lo, hi);
        if a < b {
            let t = string_from_range(&cs, a, b);
            match read_header(t.as_str()) {
                Err(m) => {
                    return Err(AppError::Manifest(m));
                },
                Ok(h) => {
                    match check_manifest_header(&h) {
                        Err(e) => {
                            return Err(e);
                        },
                        Ok(()) => {},
                    }
                },
            }
            count = count + 1;
        }
        k = k + 1;
    }
    if count == 0 {
        return Err(manifest_error("no documents found"));
    }
    Ok(count)
}

/// The text under `key` when `j` is an object holding a string there.
pub open spec fn str_field(j: JsonView, key: Seq<char>) -> Option<Seq<char>> {
    match field_of(j, key) {
        Some(JsonView::Str(s)) => Some(s),
        _ => None,
    }
}

/// The header a document tree declares: the strings at `apiVersion`,
/// `kind` and `metadata.name`, the fields a manifest check reads.
pub open spec fn header_of(j: JsonView) -> HeaderView {
    (
        str_field(j, "apiVersion"@),
        str_field(j, "kind"@),
        match field_of(j, "metadata"@) {
            Some(m) => str_field(m, "name"@),
            None => None,
        },
    )
}

/// The number of documents among `docs` that are not blank.
pub open spec fn nonblank_count(docs: Seq<Seq<char>>) -> nat
    decreases docs.len(),
{
    if docs.len() == 0 {
        0
    } else {
        (if trim(docs[0]).len() > 0 {
            1nat
        } else {
            0nat
        }) + nonblank_count(docs.drop_first())
    }
}

/// Whether every document of `docs` that is not blank reads as YAML with an
/// accepted header.
pub open spec fn all_accepted(docs: Seq<Seq<char>>) -> bool {
    forall|i: int| 0 <= i < docs.len() && trim(#[trigger] docs[i]).len() > 0 ==> doc_accepted(docs[i])
}

/// How a document that is not blank and not accepted is refused: with the
/// parser's message when it is not YAML, else with its header's refusal.
pub open spec fn refusal_of(d: Seq<char>) -> Result<nat, AppErrorView> {
    match yaml_value(trim(d)) {
        None => Err(AppErrorView::Manifest(yaml_error(trim(d)))),
        Some(v) => match header_verdict(header_of(v)) {
            Err(e) => Err(e),
            Ok(()) => Ok(0),
        },
    }
}

/// Lemma: the verdict on documents is a count exactly when every non-blank
/// one is accepted and some document is counted, and then it counts them.
proof fn lemma_docs_verdict_ok(docs: Seq<Seq<char>>, count: nat)
    ensures
        docs_verdict(docs, count) is Ok <==> (all_accepted(docs) && count + nonblank_count(docs) > 0),
        docs_verdict(docs, count) is Ok ==> docs_verdict(docs, count) == Ok::<nat, AppErrorView>(
            count + nonblank_count(docs),
        ),
    decreases docs.len(),
{
    if docs.len() > 0 {
        let rest = docs.drop_first();
        assert forall|i: int| 0 <= i < rest.len() implies #[trigger] rest[i] == docs[i + 1] by {}
        if trim(docs[0]).len() == 0 {
            lemma_docs_verdict_ok(rest, count);
            assert(all_accepted(docs) <==> all_accepted(rest)) by {
                if all_accepted(rest) {
                    assert forall|i: int| 0 <= i < docs.len() && trim(#[trigger] docs[i]).len() > 0 implies doc_accepted(
                        docs[i],
                    ) by {
                        assert(rest[i - 1] == docs[i]);
                    }
                }
            }
        } else if doc_accepted(docs[0]) {
            lemma_docs_verdict_ok(rest, count + 1);
            assert(all_accepted(docs) <==> all_accepted(rest)) by {
                if all_accepted(rest) {
                    assert forall|i: int| 0 <= i < docs.len() && trim(#[trigger] docs[i]).len() > 0 implies doc_accepted(
                        docs[i],
                    ) by {
                        if i > 0 {
                            assert(rest[i - 1] == docs[i]);
                        }
                    }
                }
            }
        } else {
            assert(!all_accepted(docs));
        }
    }
}

/// Lemma: the first document that is not blank and not accepted decides the
/// verdict, refusing as it is refused.
proof fn lemma_docs_verdict_refused(docs: Seq<Seq<char>>, count: nat, i: int)
    requires
        0 <= i < docs.len(),
        trim(docs[i]).len() > 0,
        !doc_accepted(docs[i]),
        forall|j: int| 0 <= j < i && trim(#[trigger] docs[j]).len() > 0 ==> doc_accepted(docs[j]),
    ensures
        docs_verdict(docs, count) == refusal_of(docs[i]),
    decreases i,
{
    if i > 0 {
        let rest = docs.drop_first();
        assert(rest[i - 1] == docs[i]);
        assert forall|j: int| 0 <= j < i - 1 && trim(#[trigger] rest[j]).len() > 0 implies doc_accepted(rest[j]) by {
            assert(rest[j] == docs[j + 1]);
        }
        if trim(docs[0]).len() == 0 {
            lemma_docs_verdict_refused(rest, count, i - 1);
        } else {
            assert(doc_accepted(docs[0]));
            lemma_docs_verdict_refused(rest, count + 1, i - 1);
        }
    }
}

/// Lemma: a file one of whose pieces is not blank is not blank.
proof fn lemma_file_nonblank(content: Seq<char>, i: int)
    requires
        0 <= i < split_on(content, "\n---"@).len(),
        trim(split_on(content, "\n---"@)[i]).len() > 0,
    ensures
        trim(content).len() > 0,
{
    let p = split_on(content, "\n---"@)[i];
    lemma_split_piece_within(content, "\n---"@, 0, i);
    let (a, b) = choose|a: int, b: int| 0 <= a <= b <= content.len() && p == content.subrange(a, b);
    lemma_trim(p);
    let (x, y) = choose|x: int, y: int| 0 <= x <= y <= p.len() && trim(p) == p.subrange(x, y);
    assert(trim(p)[0] == p[x]);
    assert(p[x] == content[a + x]);
    lemma_trim_nonblank(content, a + x);
}

/// Law: the manifest check succeeds exactly when every document of the file
/// that is not blank reads as YAML with an accepted header and there is at
/// least one such document; it then answers how many there are.  A document
/// that is not YAML is never skipped.
pub proof fn lemma_manifest_counts_documents(content: Seq<char>)
    ensures
        manifest_verdict(content) is Ok <==> (all_accepted(split_on(content, "\n---"@)) && nonblank_count(
            split_on(content, "\n---"@),
        ) > 0),
        manifest_verdict(content) is Ok ==> manifest_verdict(content) == Ok::<nat, AppErrorView>(
            nonblank_count(split_on(content, "\n---"@)),
        ),
{
    let ps = split_on(content, "\n---"@);
    lemma_docs_verdict_ok(ps, 0);
    if nonblank_count(ps) > 0 && trim(content).len() == 0 {
        let i = lemma_some_nonblank(ps);
        lemma_file_nonblank(content, i);
    }
}

/// Lemma: documents of which some are counted hold a non-blank one.
proof fn lemma_some_nonblank(docs: Seq<Seq<char>>) -> (i: int)
    requires
        nonblank_count(docs) > 0,
    ensures
        0 <= i < docs.len(),
        trim(docs[i]).len() > 0,
    decreases docs.len(),
{
    if trim(docs[0]).len() > 0 {
        0
    } else {
        let j = lemma_some_nonblank(docs.drop_first());
        assert(docs.drop_first()[j] == docs[j + 1]);
        j + 1
    }
}

/// Law: the first document of a manifest file that is not blank and is not
/// accepted decides the check: it fails with the YAML parser's message for
/// that document when it is not YAML, and otherwise with its header's
/// refusal.
pub proof fn lemma_manifest_first_refused_document(content: Seq<char>, i: int)
    requires
        0 <= i < split_on(content, "\n---"@).len(),
        trim(split_on(content, "\n---"@)[i]).len() > 0,
        !doc_accepted(split_on(content, "\n---"@)[i]),
        forall|j: int|
            0 <= j < i && trim(#[trigger] split_on(content, "\n---"@)[j]).len() > 0 ==> doc_accepted(
                split_on(content, "\n---"@)[j],
            ),
    ensures
        manifest_verdict(content) == refusal_of(split_on(content, "\n---"@)[i]),
        yaml_value(trim(split_on(content, "\n---"@)[i])) is None ==> manifest_verdict(content) == Err::<
            nat,
            AppErrorView,
        >(AppErrorView::Manifest(yaml_error(trim(split_on(content, "\n---"@)[i])))),
{
    lemma_file_nonblank(content, i);
    lemma_docs_verdict_refused(split_on(content, "\n---"@), 0, i);
}

} // verus!
