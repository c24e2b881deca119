//! Rules stored as markdown files with a metadata sidecar, and the journal of the changes made
//! while offline that still have to reach upstream.
//!
//! `RuleStore` holds the metadata (each rule's title, creation time, origin) and the journal.
//! Each change returns the `Transaction` of markdown files to write and to delete; whoever owns
//! the directory commits it together with the metadata.
use vstd::prelude::*;
use vstd::hash_map::StringHashMap;

use crate::error::{is_protocol, Error};
use crate::text::{push_str, views};

verus! {

/// Ids of rules created offline that upstream has not assigned an id to yet.
pub const LOCAL_ID_PREFIX: &'static str = "local-";

/// A rule's full view: its text comes from the markdown file, the rest from the metadata.
#[derive(Clone, Debug, PartialEq)]
pub struct RuleRecord {
    pub id: String,
    pub knowledge: String,
    pub title: String,
    pub created_at: String,
    pub is_generated: bool,
    pub git_origin: String,
}

/// What the metadata keeps of a rule.
#[derive(Clone, Debug, PartialEq)]
pub struct RuleMeta {
    pub title: String,
    pub created_at: String,
    pub is_generated: bool,
    pub git_origin: String,
}

/// The kind of an offline change.
#[derive(Clone, Copy, Debug, PartialEq, Eq, Structural)]
pub enum JournalOp {
    Add,
    Update,
    Remove,
}

/// A change made while offline that has not reached upstream yet.
#[derive(Clone, Debug, PartialEq)]
pub struct JournalEntry {
    pub op: JournalOp,
    pub id: String,
    /// How many times upstream explicitly rejected it; being unreachable does not count.
    pub attempts: u32,
}

/// The markdown files a change writes (id and text) and deletes (id).
#[derive(Debug)]
pub struct Transaction {
    pub writes: Vec<(String, String)>,
    pub deletes: Vec<String>,
}

/// The metadata a record stores.
pub open spec fn meta_of(r: RuleRecord) -> RuleMeta {
    RuleMeta {
        title: r.title,
        created_at: r.created_at,
        is_generated: r.is_generated,
        git_origin: r.git_origin,
    }
}

/// The metadata a record stores.
pub fn rule_meta(record: &RuleRecord) -> (m: RuleMeta)
    ensures
        m == meta_of(*record),
{
    RuleMeta {
        title: record.title.clone(),
        created_at: record.created_at.clone(),
        is_generated: record.is_generated,
        git_origin: record.git_origin.clone(),
    }
}

/// The record read back from a rule's id, its markdown text and its metadata; a file without
/// metadata is titled by its id and dated by the file's modification time.
pub open spec fn assembled(
    id: Seq<char>,
    knowledge: Seq<char>,
    meta: Option<RuleMeta>,
    modified_at: Seq<char>,
) -> (Seq<char>, Seq<char>, Seq<char>, Seq<char>, bool, Seq<char>) {
    match meta {
        Some(m) => (id, knowledge, m.title@, m.created_at@, m.is_generated, m.git_origin@),
        None => (id, knowledge, id, modified_at, false, Seq::empty()),
    }
}

/// The fields of a record, as text.
pub open spec fn record_fields(r: RuleRecord) -> (
    Seq<char>,
    Seq<char>,
    Seq<char>,
    Seq<char>,
    bool,
    Seq<char>,
) {
    (r.id@, r.knowledge@, r.title@, r.created_at@, r.is_generated, r.git_origin@)
}

/// Assembles the record of a rule file from its id, text and metadata.
pub fn assemble(id: &str, knowledge: String, meta: Option<&RuleMeta>, modified_at: &str) -> (r:
    RuleRecord)
    ensures
        record_fields(r) == assembled(
            id@,
            knowledge@,
            match meta {
                Some(m) => Some(*m),
                None => None,
            },
            modified_at@,
        ),
{
    match meta {
        Some(m) => RuleRecord {
            id: crate::text::copy(id),
            knowledge,
            title: m.title.clone(),
            created_at: m.created_at.clone(),
            is_generated: m.is_generated,
            git_origin: m.git_origin.clone(),
        },
        None => RuleRecord {
            id: crate::text::copy(id),
            knowledge,
            title: crate::text::copy(id),
            created_at: crate::text::copy(modified_at),
            is_generated: false,
            git_origin: String::new(),
        },
    }
}

/// A character that a rule id may hold.
pub open spec fn id_char(c: char) -> bool {
    ('a' <= c && c <= 'z') || ('A' <= c && c <= 'Z') || ('0' <= c && c <= '9') || c == '-' || c
        == '_'
}

/// Whether `id` may name a rule file: 1 to 128 ASCII letters, digits, `-` or `_`, so that it
/// cannot leave the rules directory.
pub open spec fn valid_id(id: Seq<char>) -> bool {
    &&& 0 < id.len() <= 128
    &&& forall|i: int| 0 <= i < id.len() ==> id_char(#[trigger] id[i])
}

/// The quoted, escaped form that `{:?}` gives a text.
pub uninterp spec fn debug_quoted(s: Seq<char>) -> Seq<char>;

/// `format!("{:?}", s)` on a `str`: the text in double quotes with its special characters
/// escaped, as `core::fmt::Debug` renders it. Only that the result is this function of the text
/// is stated.
#[verifier::external_body]
fn debug_text(s: &str) -> (r: String)
    ensures
        r@ == debug_quoted(s@),
{
    format!("{s:?}")
}

/// The message of a rejected rule id.
pub open spec fn invalid_id_message(id: Seq<char>) -> Seq<char> {
    "invalid rule id: "@ + debug_quoted(id)
}

/// Accepts a valid rule id; rejects any other with a protocol error that quotes it.
pub fn validate_id(id: &str) -> (r: Result<(), Error>)
    ensures
        r is Ok <==> valid_id(id@),
        r is Err ==> is_protocol(r->Err_0, invalid_id_message(id@)),
{
    let chars = crate::text::chars_of(id);
    let mut ok = chars.len() > 0 && chars.len() <= 128;
    let mut i: usize = 0;
    while ok && i < chars.len()
        invariant
            i <= chars.len(),
            chars@ == id@,
            ok ==> (0 < id@.len() <= 128),
            ok ==> forall|j: int| 0 <= j < i ==> id_char(#[trigger] id@[j]),
            !ok ==> !valid_id(id@),
        decreases chars.len() - i,
    {
        let c = chars[i];
        if !(('a' <= c && c <= 'z') || ('A' <= c && c <= 'Z') || ('0' <= c && c <= '9') || c
            == '-' || c == '_') {
            ok = false;
        }
        i = i + 1;
    }
    if ok {
        Ok(())
    } else {
        let quoted = debug_text(id);
        Err(crate::error::protocol_error("invalid rule id: ", quoted.as_str()))
    }
}

/// Whether `id` names a rule created offline.
pub open spec fn local_id(id: Seq<char>) -> bool {
    LOCAL_ID_PREFIX@.len() <= id.len() && id.take(LOCAL_ID_PREFIX@.len() as int)
        == LOCAL_ID_PREFIX@
}

/// Whether the journal holds an `op` change of `id`.
pub open spec fn has_entry(journal: Seq<JournalEntry>, id: Seq<char>, op: JournalOp) -> bool {
    exists|i: int| 0 <= i < journal.len() && #[trigger] journal[i].id@ == id && journal[i].op == op
}

/// Whether the journal holds an `op` change of `id`.
pub fn journal_contains(journal: &[JournalEntry], id: &str, op: JournalOp) -> (r: bool)
    ensures
        r == has_entry(journal@, id@, op),
{
    let mut i: usize = 0;
    while i < journal.len()
        invariant
            i <= journal.len(),
            forall|j: int| 0 <= j < i ==> !(#[trigger] journal@[j].id@ == id@ && journal@[j].op == op),
        decreases journal.len() - i,
    {
        if journal[i].op == op && crate::text::str_eq(journal[i].id.as_str(), id) {
            return true;
        }
        i = i + 1;
    }
    false
}

/// Whether `e` is a fresh journal entry: an `op` change of `id` not rejected yet.
pub open spec fn fresh_entry(e: JournalEntry, op: JournalOp, id: Seq<char>) -> bool {
    e.op == op && e.id@ == id && e.attempts == 0
}

/// Whether `after` is `before` with a fresh entry appended.
pub open spec fn appended(
    before: Seq<JournalEntry>,
    after: Seq<JournalEntry>,
    op: JournalOp,
    id: Seq<char>,
) -> bool {
    after.len() == before.len() + 1 && after.take(before.len() as int) == before && fresh_entry(
        after.last(),
        op,
        id,
    )
}

/// The journal without the entries of `id`, in order.
pub open spec fn without_entries(journal: Seq<JournalEntry>, id: Seq<char>) -> Seq<JournalEntry>
    decreases journal.len(),
{
    if journal.len() == 0 {
        Seq::empty()
    } else if journal.last().id@ == id {
        without_entries(journal.drop_last(), id)
    } else {
        without_entries(journal.drop_last(), id).push(journal.last())
    }
}

/// The journal after an offline update of `id`: an update of a rule whose add is still pending
/// adds nothing (the add carries the latest text); otherwise one add (for a local id) or update
/// entry, unless the journal holds it already.
pub open spec fn journal_after_update(
    before: Seq<JournalEntry>,
    after: Seq<JournalEntry>,
    id: Seq<char>,
) -> bool {
    let op = if local_id(id) {
        JournalOp::Add
    } else {
        JournalOp::Update
    };
    if has_entry(before, id, JournalOp::Add) || has_entry(before, id, op) {
        after == before
    } else {
        appended(before, after, op, id)
    }
}

/// The journal after an offline removal of `id`: every entry of `id` leaves; a removal entry
/// follows unless upstream never saw the rule (its add is pending, or its id is local).
pub open spec fn journal_after_remove(
    before: Seq<JournalEntry>,
    after: Seq<JournalEntry>,
    id: Seq<char>,
) -> bool {
    let kept = without_entries(before, id);
    if has_entry(before, id, JournalOp::Add) || local_id(id) {
        after == kept
    } else {
        appended(kept, after, JournalOp::Remove, id)
    }
}

/// The texts of a list without `id`, in order.
pub open spec fn without_text(list: Seq<Seq<char>>, id: Seq<char>) -> Seq<Seq<char>>
    decreases list.len(),
{
    if list.len() == 0 {
        Seq::empty()
    } else if list.last() == id {
        without_text(list.drop_last(), id)
    } else {
        without_text(list.drop_last(), id).push(list.last())
    }
}

proof fn lemma_without_text_contains(list: Seq<Seq<char>>, id: Seq<char>, k: Seq<char>)
    ensures
        without_text(list, id).contains(k) <==> (list.contains(k) && k != id),
    decreases list.len(),
{
    if list.len() > 0 {
        let rest = list.drop_last();
        lemma_without_text_contains(rest, id, k);
        assert(list == rest.push(list.last()));
        if list.contains(k) {
            let j = choose|j: int| 0 <= j < list.len() && list[j] == k;
            if j < rest.len() {
                assert(rest[j] == k);
            }
        }
        if rest.contains(k) {
            let j = choose|j: int| 0 <= j < rest.len() && rest[j] == k;
            assert(list[j] == k);
        }
        let w = without_text(rest, id);
        if list.last() != id {
            let ws = w.push(list.last());
            if ws.contains(k) {
                let j = choose|j: int| 0 <= j < ws.len() && ws[j] == k;
                if j < w.len() {
                    assert(w[j] == k);
                }
            }
            if w.contains(k) {
                let j = choose|j: int| 0 <= j < w.len() && w[j] == k;
                assert(ws[j] == k);
            }
            if k == list.last() {
                assert(ws[ws.len() - 1] == k);
            }
        }
    }
}

fn strings_without(list: &Vec<String>, id: &str) -> (r: Vec<String>)
    ensures
        views(r@) == without_text(views(list@), id@),
{
    let mut r: Vec<String> = Vec::new();
    let mut i: usize = 0;
    while i < list.len()
        invariant
            i <= list.len(),
            views(r@) == without_text(views(list@).take(i as int), id@),
        decreases list.len() - i,
    {
        proof {
            assert(views(list@).take(i as int + 1).drop_last() == views(list@).take(i as int));
        }
        if !crate::text::str_eq(list[i].as_str(), id) {
            r.push(crate::text::copy(list[i].as_str()));
            proof {
                assert(views(r@) =~= without_text(views(list@).take(i as int), id@).push(
                    list@[i as int]@,
                ));
            }
        }
        i = i + 1;
    }
    assert(views(list@).take(list.len() as int) == views(list@));
    r
}

fn copy_entry(e: &JournalEntry) -> (r: JournalEntry)
    ensures
        r == *e,
{
    JournalEntry { op: e.op, id: e.id.clone(), attempts: e.attempts }
}

fn fresh(op: JournalOp, id: &str) -> (r: JournalEntry)
    ensures
        fresh_entry(r, op, id@),
{
    JournalEntry { op, id: crate::text::copy(id), attempts: 0 }
}

fn entries_without(journal: &Vec<JournalEntry>, id: &str) -> (r: Vec<JournalEntry>)
    ensures
        r@ == without_entries(journal@, id@),
{
    let mut r: Vec<JournalEntry> = Vec::new();
    let mut i: usize = 0;
    while i < journal.len()
        invariant
            i <= journal.len(),
            r@ == without_entries(journal@.take(i as int), id@),
        decreases journal.len() - i,
    {
        assert(journal@.take(i as int + 1).drop_last() == journal@.take(i as int));
        if !crate::text::str_eq(journal[i].id.as_str(), id) {
            r.push(copy_entry(&journal[i]));
        }
        i = i + 1;
    }
    assert(journal@.take(journal.len() as int) == journal@);
    r
}

/// The rules that replace the whole metadata, as a map: a later record of the same id wins.
pub open spec fn rules_of(records: Seq<RuleRecord>) -> Map<Seq<char>, RuleMeta>
    decreases records.len(),
{
    if records.len() == 0 {
        Map::empty()
    } else {
        rules_of(records.drop_last()).insert(records.last().id@, meta_of(records.last()))
    }
}

/// The file of each record, in order.
pub open spec fn record_files(records: Seq<RuleRecord>) -> Seq<(Seq<char>, Seq<char>)> {
    records.map_values(|r: RuleRecord| (r.id@, r.knowledge@))
}

/// The files on disk that a full replacement deletes: those with a valid id that the new
/// rules do not hold, in order.
pub open spec fn stale_files(on_disk: Seq<Seq<char>>, rules: Map<Seq<char>, RuleMeta>) -> Seq<
    Seq<char>,
>
    decreases on_disk.len(),
{
    if on_disk.len() == 0 {
        Seq::empty()
    } else if valid_id(on_disk.last()) && !rules.contains_key(on_disk.last()) {
        stale_files(on_disk.drop_last(), rules).push(on_disk.last())
    } else {
        stale_files(on_disk.drop_last(), rules)
    }
}

/// Whether every record before `n` has a valid id.
pub open spec fn valid_before(records: Seq<RuleRecord>, n: int) -> bool {
    forall|j: int| 0 <= j < n ==> valid_id(#[trigger] records[j].id@)
}

/// The pairs of a transaction's writes, as text.
pub open spec fn write_views(writes: Seq<(String, String)>) -> Seq<(Seq<char>, Seq<char>)> {
    writes.map_values(|w: (String, String)| (w.0@, w.1@))
}

/// A rule as upstream lists it.
#[derive(Clone, Debug)]
pub struct KnowledgeBaseListItem {
    pub id: String,
    pub knowledge: String,
    pub title: String,
    pub created_at: String,
    pub is_generated: bool,
}

/// Whether a record has the fields of an upstream item.
pub open spec fn from_item(r: RuleRecord, item: KnowledgeBaseListItem) -> bool {
    &&& r.id@ == item.id@
    &&& r.knowledge@ == item.knowledge@
    &&& r.title@ == item.title@
    &&& r.created_at@ == item.created_at@
    &&& r.is_generated == item.is_generated
    &&& r.git_origin@.len() == 0
}

/// The most upstream rejections an entry may collect; the next one drops it so that it cannot
/// hold back the rest of the journal.
pub const MAX_REPLAY_REJECTIONS: u32 = 8;

/// The line that starts at `start` ends after its newline, or at the end of the text.
pub open spec fn line_end(t: Seq<char>, start: int) -> int
    decreases t.len() - start,
{
    if start >= t.len() {
        t.len() as int
    } else if t[start] == '\n' {
        start + 1
    } else {
        line_end(t, start + 1)
    }
}

/// A line ends after its start, within the text, and holds no newline before its end.
pub proof fn lemma_line_end(t: Seq<char>, start: int)
    requires
        0 <= start < t.len(),
    ensures
        start < line_end(t, start) <= t.len(),
        forall|k: int| start <= k < line_end(t, start) - 1 ==> #[trigger] t[k] != '\n',
    decreases t.len() - start,
{
    if t[start] != '\n' {
        if start + 1 < t.len() {
            lemma_line_end(t, start + 1);
        } else {
            assert(line_end(t, start + 1) == t.len());
        }
    }
}

/// Where the front matter closes: the end of the first line from `start` on that ends more
/// than four characters into the text and is `---` once trimmed.
pub open spec fn front_matter_end(t: Seq<char>, start: int) -> Option<int>
    decreases t.len() - start,
{
    if start < 0 || start >= t.len() {
        None
    } else {
        let e = line_end(t, start);
        if e > 4 && crate::text::trim(t.subrange(start, e)) == "---"@ {
            Some(e)
        } else {
            proof {
                lemma_line_end(t, start);
            }
            front_matter_end(t, e)
        }
    }
}

/// The body of a rule: the trimmed text, without a leading `---` … `---` front matter block.
pub open spec fn rule_body(knowledge: Seq<char>) -> Seq<char> {
    let t = crate::text::trim(knowledge);
    if t.len() == 0 || crate::text::trim(t.subrange(0, line_end(t, 0))) != "---"@ {
        t
    } else {
        match front_matter_end(t, 0) {
            Some(e) => crate::text::trim(t.skip(e)),
            None => t,
        }
    }
}

/// The XML escape of one character.
pub open spec fn xml_char(c: char) -> Seq<char> {
    if c == '&' {
        "&amp;"@
    } else if c == '"' {
        "&quot;"@
    } else if c == '<' {
        "&lt;"@
    } else if c == '>' {
        "&gt;"@
    } else {
        seq![c]
    }
}

/// The text with `&`, `"`, `<` and `>` escaped for XML.
pub open spec fn xml_escaped(s: Seq<char>) -> Seq<char>
    decreases s.len(),
{
    if s.len() == 0 {
        Seq::empty()
    } else {
        xml_escaped(s.drop_last()) + xml_char(s.last())
    }
}

/// The opening of the system-prompt section of shared rules.
pub const RULES_HEADER: &'static str = "<shared_user_rules description=\"These shared local rules apply to every conversation. Follow them when relevant.\">";

/// The closing of the system-prompt section of shared rules.
pub const RULES_FOOTER: &'static str = "\n</shared_user_rules>";

/// The section entry of one rule; empty when its body is.
pub open spec fn rule_entry(r: RuleRecord) -> Seq<char> {
    let body = rule_body(r.knowledge@);
    if body.len() == 0 {
        Seq::empty()
    } else {
        "\n<rule file=\""@ + xml_escaped(r.id@ + ".md"@) + "\">\n"@ + xml_escaped(body)
            + "\n</rule>"@
    }
}

/// The prompt entries of the rules that carry content, in order.
pub open spec fn rule_entries(records: Seq<RuleRecord>) -> Seq<char>
    decreases records.len(),
{
    if records.len() == 0 {
        Seq::empty()
    } else {
        rule_entries(records.drop_last()) + rule_entry(records.last())
    }
}

/// The system-prompt section of the rules, in the order given; empty when no rule has a body.
pub open spec fn prompt_section(records: Seq<RuleRecord>) -> Seq<char> {
    let entries = rule_entries(records);
    if entries.len() == 0 {
        Seq::empty()
    } else {
        RULES_HEADER@ + entries + RULES_FOOTER@
    }
}

fn next_line_end(t: &[char], start: usize) -> (e: usize)
    requires
        start < t.len(),
    ensures
        e == line_end(t@, start as int),
{
    let mut i: usize = start;
    while i < t.len() && t[i] != '\n'
        invariant
            start <= i <= t.len(),
            line_end(t@, i as int) == line_end(t@, start as int),
        decreases t.len() - i,
    {
        i = i + 1;
    }
    if i < t.len() {
        i + 1
    } else {
        i
    }
}

/// The body of a rule without its front matter.
pub fn rule_content(knowledge: &str) -> (r: String)
    ensures
        r@ == rule_body(knowledge@),
{
    let trimmed = crate::text::trim_str(knowledge);
    let t = crate::text::chars_of(trimmed.as_str());
    if t.len() == 0 {
        return trimmed;
    }
    let first_end = next_line_end(&t, 0);
    proof {
        lemma_line_end(t@, 0);
    }
    let first = crate::text::string_of_range(&t, 0, first_end);
    let first_trimmed = crate::text::trim_str(first.as_str());
    if !crate::text::str_eq(first_trimmed.as_str(), "---") {
        return trimmed;
    }
    let mut start: usize = 0;
    while start < t.len()
        invariant
            start <= t.len(),
            t@ == crate::text::trim(knowledge@),
            t@.len() > 0,
            crate::text::trim(t@.subrange(0, line_end(t@, 0))) == "---"@,
            front_matter_end(t@, start as int) == front_matter_end(t@, 0),
        decreases t.len() - start,
    {
        let e = next_line_end(&t, start);
        proof {
            lemma_line_end(t@, start as int);
        }
        let line = crate::text::string_of_range(&t, start, e);
        let line_trimmed = crate::text::trim_str(line.as_str());
        if e > 4 && crate::text::str_eq(line_trimmed.as_str(), "---") {
            let rest = crate::text::string_of_range(&t, e, t.len());
            assert(t@.subrange(e as int, t.len() as int) == t@.skip(e as int));
            assert(front_matter_end(t@, start as int) == Some(e as int));
            return crate::text::trim_str(rest.as_str());
        }
        start = e;
    }
    trimmed
}

/// `s` escaped for XML.
pub fn escape_xml(s: &str) -> (r: String)
    ensures
        r@ == xml_escaped(s@),
{
    let v = crate::text::chars_of(s);
    let mut out = String::new();
    let mut i: usize = 0;
    while i < v.len()
        invariant
            i <= v.len(),
            v@ == s@,
            out@ == xml_escaped(v@.take(i as int)),
        decreases v.len() - i,
    {
        assert(v@.take(i as int + 1).drop_last() == v@.take(i as int));
        let c = v[i];
        if c == '&' {
            push_str(&mut out, "&amp;");
        } else if c == '"' {
            push_str(&mut out, "&quot;");
        } else if c == '<' {
            push_str(&mut out, "&lt;");
        } else if c == '>' {
            push_str(&mut out, "&gt;");
        } else {
            crate::text::push_char(&mut out, c);
            assert(out@ == xml_escaped(v@.take(i as int)) + seq![c]);
        }
        i = i + 1;
    }
    assert(v@.take(v.len() as int) == v@);
    out
}

/// Renders rules, in the order given, as the `<shared_user_rules>` system-prompt section: each
/// rule with a body becomes one entry naming its file; no section at all when none has one.
pub fn system_prompt_section(records: &[RuleRecord]) -> (r: String)
    ensures
        r@ == prompt_section(records@),
{
    let mut entries = String::new();
    let mut i: usize = 0;
    while i < records.len()
        invariant
            i <= records.len(),
            entries@ == rule_entries(records@.take(i as int)),
        decreases records.len() - i,
    {
        assert(records@.take(i as int + 1).drop_last() == records@.take(i as int));
        let record = &records[i];
        let content = rule_content(record.knowledge.as_str());
        if !content.as_str().is_empty() {
            let mut file = crate::text::copy(record.id.as_str());
            push_str(&mut file, ".md");
            let file_escaped = escape_xml(file.as_str());
            let content_escaped = escape_xml(content.as_str());
            push_str(&mut entries, "\n<rule file=\"");
            push_str(&mut entries, file_escaped.as_str());
            push_str(&mut entries, "\">\n");
            push_str(&mut entries, content_escaped.as_str());
            push_str(&mut entries, "\n</rule>");
        }
        i = i + 1;
    }
    assert(records@.take(records.len() as int) == records@);
    if entries.as_str().is_empty() {
        return String::new();
    }
    let mut section = crate::text::copy(RULES_HEADER);
    push_str(&mut section, entries.as_str());
    push_str(&mut section, RULES_FOOTER);
    section
}

proof fn lemma_without_entries_lacks(journal: Seq<JournalEntry>, id: Seq<char>, i: int)
    requires
        0 <= i < without_entries(journal, id).len(),
    ensures
        without_entries(journal, id)[i].id@ != id,
    decreases journal.len(),
{
    if journal.len() > 0 {
        let rest = journal.drop_last();
        if journal.last().id@ == id {
            lemma_without_entries_lacks(rest, id, i);
        } else if i < without_entries(rest, id).len() {
            lemma_without_entries_lacks(rest, id, i);
        }
    }
}

/// A journaled change of a rule leaves no entry of it behind that a later removal keeps: after
/// an offline removal, the journal holds at most the removal itself for that rule.
pub proof fn lemma_remove_supersedes(
    before: Seq<JournalEntry>,
    after: Seq<JournalEntry>,
    id: Seq<char>,
)
    requires
        journal_after_remove(before, after, id),
    ensures
        !has_entry(after, id, JournalOp::Add),
        !has_entry(after, id, JournalOp::Update),
{
    let kept = without_entries(before, id);
    assert forall|i: int| 0 <= i < after.len() && #[trigger] after[i].id@ == id implies after[i].op
        == JournalOp::Remove by {
        if i < kept.len() {
            if !(has_entry(before, id, JournalOp::Add) || local_id(id)) {
                assert(after[i] == after.take(kept.len() as int)[i]);
            }
            lemma_without_entries_lacks(before, id, i);
        }
    }
}

/// An update of a rule whose offline addition is still journaled adds nothing: replaying the
/// addition already carries the latest text.
pub proof fn lemma_update_after_add_is_absorbed(
    start: Seq<JournalEntry>,
    added: Seq<JournalEntry>,
    updated: Seq<JournalEntry>,
    id: Seq<char>,
)
    requires
        appended(start, added, JournalOp::Add, id),
        journal_after_update(added, updated, id),
    ensures
        updated == added,
{
    assert(added[added.len() - 1].id@ == id);
}

/// Removing a rule whose offline addition is still journaled leaves no entry of it at all:
/// upstream never saw it.
pub proof fn lemma_remove_after_add_leaves_nothing(
    start: Seq<JournalEntry>,
    added: Seq<JournalEntry>,
    removed: Seq<JournalEntry>,
    id: Seq<char>,
)
    requires
        appended(start, added, JournalOp::Add, id),
        journal_after_remove(added, removed, id),
    ensures
        forall|i: int| 0 <= i < removed.len() ==> (#[trigger] removed[i]).id@ != id,
{
    assert(added[added.len() - 1].id@ == id);
    assert(has_entry(added, id, JournalOp::Add));
    assert forall|i: int| 0 <= i < removed.len() implies (#[trigger] removed[i]).id@ != id by {
        lemma_without_entries_lacks(added, id, i);
    }
}

/// Repeated offline updates of one rule coalesce: a second update changes the journal no
/// further.
pub proof fn lemma_updates_coalesce(
    first: Seq<JournalEntry>,
    second: Seq<JournalEntry>,
    third: Seq<JournalEntry>,
    id: Seq<char>,
)
    requires
        journal_after_update(first, second, id),
        journal_after_update(second, third, id),
    ensures
        third == second,
{
    let op = if local_id(id) {
        JournalOp::Add
    } else {
        JournalOp::Update
    };
    if !(has_entry(first, id, JournalOp::Add) || has_entry(first, id, op)) {
        assert(second[second.len() - 1].id@ == id);
        assert(has_entry(second, id, op));
    }
}

/// What a stored rule reads back as: its metadata and its file give back the record.
pub proof fn lemma_stored_record_reads_back(record: RuleRecord, modified_at: Seq<char>)
    ensures
        assembled(record.id@, record.knowledge@, Some(meta_of(record)), modified_at)
            == record_fields(record),
{
}

/// After a full replacement, every listed rule has metadata, and it is that of the last record
/// with its id.
pub proof fn lemma_replacement_holds_every_record(records: Seq<RuleRecord>, i: int)
    requires
        0 <= i < records.len(),
        forall|j: int| i < j < records.len() ==> (#[trigger] records[j]).id@ != records[i].id@,
    ensures
        rules_of(records).contains_key(records[i].id@),
        rules_of(records)[records[i].id@] == meta_of(records[i]),
    decreases records.len(),
{
    if i < records.len() - 1 {
        lemma_replacement_holds_every_record(records.drop_last(), i);
        assert(records.last() == records[records.len() - 1]);
    } else {
        assert(records.drop_last().push(records.last()) == records);
    }
}

/// What `chrono::DateTime::parse_from_rfc3339` makes of a text, as Unix milliseconds.
pub uninterp spec fn rfc3339_millis(text: Seq<char>) -> Option<i64>;

/// `chrono::DateTime::parse_from_rfc3339` followed by `timestamp_millis`: the instant an RFC
/// 3339 text names, in milliseconds since the Unix epoch; `None` where the parser refuses the
/// text. Only that the result is this function of the text is stated.
#[verifier::external_body]
fn parse_rfc3339_millis(text: &str) -> (r: Option<i64>)
    ensures
        r == rfc3339_millis(text@),
{
    chrono::DateTime::parse_from_rfc3339(text).ok().map(|time| time.timestamp_millis())
}

/// The creation instant a rule is listed by; 0 when its creation time does not parse.
pub open spec fn timestamp_of(created_at: Seq<char>) -> i64 {
    match rfc3339_millis(created_at) {
        Some(t) => t,
        None => 0,
    }
}

/// Whether `a` is listed before `b`: newer first, then by id.
pub open spec fn listed_before(a: RuleRecord, b: RuleRecord) -> bool {
    timestamp_of(a.created_at@) > timestamp_of(b.created_at@) || (timestamp_of(a.created_at@)
        == timestamp_of(b.created_at@) && crate::text::text_less(a.id@, b.id@))
}

/// Whether records are in listing order.
pub open spec fn in_listing_order(records: Seq<RuleRecord>) -> bool {
    forall|i: int, j: int|
        0 <= i < j < records.len() ==> !listed_before(#[trigger] records[j], #[trigger] records[i])
}

fn timestamp(created_at: &str) -> (r: i64)
    ensures
        r == timestamp_of(created_at@),
{
    match parse_rfc3339_millis(created_at) {
        Some(t) => t,
        None => 0,
    }
}

fn before(a: &RuleRecord, ta: i64, b: &RuleRecord) -> (r: bool)
    requires
        ta == timestamp_of(a.created_at@),
    ensures
        r == listed_before(*a, *b),
{
    let tb = timestamp(b.created_at.as_str());
    ta > tb || (ta == tb && crate::text::str_less(a.id.as_str(), b.id.as_str()))
}

proof fn lemma_listed_before_order(a: RuleRecord, b: RuleRecord, c: RuleRecord)
    ensures
        listed_before(a, b) && listed_before(b, c) ==> listed_before(a, c),
        !listed_before(a, a),
        !listed_before(a, b) && !listed_before(b, a) ==> timestamp_of(a.created_at@)
            == timestamp_of(b.created_at@) && a.id@ == b.id@,
{
    crate::text::lemma_text_less_irreflexive(a.id@);
    crate::text::lemma_text_less_total(a.id@, b.id@);
    if crate::text::text_less(a.id@, b.id@) && crate::text::text_less(b.id@, c.id@) {
        crate::text::lemma_text_less_transitive(a.id@, b.id@, c.id@);
    }
}

/// The records in listing order: newest creation time first, then by id.
pub fn sort_for_listing(records: Vec<RuleRecord>) -> (r: Vec<RuleRecord>)
    ensures
        in_listing_order(r@),
        r@.to_multiset() == records@.to_multiset(),
{
    let ghost all = records@;
    let mut rest = records;
    let mut out: Vec<RuleRecord> = Vec::new();
    let ghost mut i: int = 0;
    assert(out@ =~= all.take(0));
    while rest.len() > 0
        invariant
            0 <= i <= all.len(),
            rest@ == all.skip(i),
            in_listing_order(out@),
            out@.to_multiset() == all.take(i).to_multiset(),
        decreases rest.len(),
    {
        let x = rest.remove(0);
        let tx = timestamp(x.created_at.as_str());
        let mut p: usize = 0;
        while p < out.len() && !before(&x, tx, &out[p])
            invariant
                p <= out.len(),
                tx == timestamp_of(x.created_at@),
                forall|j: int| 0 <= j < p ==> !listed_before(x, #[trigger] out@[j]),
            decreases out.len() - p,
        {
            p = p + 1;
        }
        let ghost prior = out@;
        proof {
            assert forall|j: int| p <= j < prior.len() implies listed_before(x, #[trigger] prior[j]) by {
                assert(listed_before(x, prior[p as int]));
                if j > p {
                    assert(!listed_before(prior[j], prior[p as int]));
                    lemma_listed_before_order(prior[j], prior[p as int], prior[j]);
                    lemma_listed_before_order(x, prior[p as int], prior[j]);
                    if !listed_before(prior[p as int], prior[j]) {
                        lemma_listed_before_order(prior[p as int], prior[j], x);
                    }
                }
            }
        }
        out.insert(p, x);
        proof {
            let after = out@;
            assert(after == prior.insert(p as int, x));
            vstd::seq_lib::to_multiset_insert(prior, p as int, x);
            assert forall|a: int, b: int| 0 <= a < b < after.len() implies !listed_before(
                #[trigger] after[b],
                #[trigger] after[a],
            ) by {
                if a == p {
                    assert(listed_before(x, prior[b - 1]));
                    lemma_listed_before_order(x, prior[b - 1], x);
                } else if b == p {
                    assert(!listed_before(x, prior[a]));
                } else if a < p && b < p {
                    assert(after[a] == prior[a] && after[b] == prior[b]);
                } else if a < p {
                    assert(after[a] == prior[a] && after[b] == prior[b - 1]);
                } else {
                    assert(after[a] == prior[a - 1] && after[b] == prior[b - 1]);
                }
            }
            assert(all.take(i + 1) == all.take(i).push(x));
            vstd::seq_lib::to_multiset_build(all.take(i), x);
            i = i + 1;
            assert(rest@ == all.skip(i));
        }
    }
    assert(all.take(all.len() as int) == all);
    out
}

/// Whether the oldest journal entry is the pending addition of `id`.
pub open spec fn promotes_front(journal: Seq<JournalEntry>, id: Seq<char>) -> bool {
    journal.len() > 0 && journal[0].id@ == id && journal[0].op == JournalOp::Add
}

/// The metadata and the journal of the rules directory.
pub struct RuleStore {
    rules: StringHashMap<RuleMeta>,
    ids: Vec<String>,
    journal: Vec<JournalEntry>,
}

/// The metadata of each rule by id, and the journal.
pub struct StoreView {
    pub rules: Map<Seq<char>, RuleMeta>,
    pub journal: Seq<JournalEntry>,
}

impl View for RuleStore {
    type V = StoreView;

    closed spec fn view(&self) -> StoreView {
        StoreView { rules: self.rules@, journal: self.journal@ }
    }
}

/// A transaction that writes one file and deletes none.
pub open spec fn writes_one(t: Transaction, id: Seq<char>, knowledge: Seq<char>) -> bool {
    &&& t.writes@.len() == 1
    &&& t.writes@[0].0@ == id
    &&& t.writes@[0].1@ == knowledge
    &&& t.deletes@.len() == 0
}

/// A transaction that deletes one file and writes none.
pub open spec fn deletes_one(t: Transaction, id: Seq<char>) -> bool {
    &&& t.writes@.len() == 0
    &&& t.deletes@.len() == 1
    &&& t.deletes@[0]@ == id
}

fn write_one(id: &str, knowledge: &str) -> (t: Transaction)
    ensures
        writes_one(t, id@, knowledge@),
{
    Transaction {
        writes: vec![(crate::text::copy(id), crate::text::copy(knowledge))],
        deletes: Vec::new(),
    }
}

fn delete_one(id: &str) -> (t: Transaction)
    ensures
        deletes_one(t, id@),
{
    Transaction { writes: Vec::new(), deletes: vec![crate::text::copy(id)] }
}

impl RuleStore {
    /// The list of rule ids names exactly the rules that have metadata.
    pub closed spec fn well_formed(&self) -> bool {
        forall|k: Seq<char>| #[trigger]
            self.rules@.contains_key(k) <==> views(self.ids@).contains(k)
    }

    /// An empty store: no metadata, an empty journal.
    pub fn new() -> (r: RuleStore)
        ensures
            r.well_formed(),
            r@.rules == Map::<Seq<char>, RuleMeta>::empty(),
            r@.journal == Seq::<JournalEntry>::empty(),
    {
        let r = RuleStore { rules: StringHashMap::new(), ids: Vec::new(), journal: Vec::new() };
        assert(views(r.ids@) =~= Seq::<Seq<char>>::empty());
        r
    }

    fn put_rule(&mut self, id: &str, meta: RuleMeta)
        requires
            old(self).well_formed(),
        ensures
            final(self).well_formed(),
            final(self)@.rules == old(self)@.rules.insert(id@, meta),
            final(self)@.journal == old(self)@.journal,
    {
        if !self.rules.contains_key(id) {
            self.ids.push(crate::text::copy(id));
            proof {
                assert(views(self.ids@) =~= views(old(self).ids@).push(id@));
                assert forall|k: Seq<char>| views(self.ids@).contains(k) <==> (views(
                    old(self).ids@,
                ).contains(k) || k == id@) by {
                    let a = views(old(self).ids@);
                    let b = views(self.ids@);
                    if b.contains(k) {
                        let j = choose|j: int| 0 <= j < b.len() && b[j] == k;
                        if j < a.len() {
                            assert(a[j] == k);
                        }
                    }
                    if a.contains(k) {
                        let j = choose|j: int| 0 <= j < a.len() && a[j] == k;
                        assert(b[j] == k);
                    }
                    if k == id@ {
                        assert(b[b.len() - 1] == k);
                    }
                }
            }
        }
        self.rules.insert(crate::text::copy(id), meta);
    }

    fn drop_rule(&mut self, id: &str)
        requires
            old(self).well_formed(),
        ensures
            final(self).well_formed(),
            final(self)@.rules == old(self)@.rules.remove(id@),
            final(self)@.journal == old(self)@.journal,
    {
        self.rules.remove(id);
        let ids = strings_without(&self.ids, id);
        self.ids = ids;
        proof {
            assert forall|k: Seq<char>| #[trigger]
                self.rules@.contains_key(k) <==> views(self.ids@).contains(k) by {
                lemma_without_text_contains(views(old(self).ids@), id@, k);
            }
        }
    }

    /// Loads the metadata of one rule, as read from the sidecar.
    pub fn load_rule(&mut self, id: String, meta: RuleMeta)
        requires
            old(self).well_formed(),
        ensures
            final(self).well_formed(),
            final(self)@.rules == old(self)@.rules.insert(id@, meta),
            final(self)@.journal == old(self)@.journal,
    {
        self.put_rule(id.as_str(), meta);
    }

    /// Loads one journal entry, as read from the sidecar.
    pub fn load_journal_entry(&mut self, entry: JournalEntry)
        requires
            old(self).well_formed(),
        ensures
            final(self).well_formed(),
            final(self)@.rules == old(self)@.rules,
            final(self)@.journal == old(self)@.journal.push(entry),
    {
        self.journal.push(entry);
    }

    /// The ids of the rules that have metadata.
    pub fn rule_ids(&self) -> (r: &Vec<String>)
        requires
            self.well_formed(),
        ensures
            forall|k: Seq<char>| self@.rules.contains_key(k) <==> #[trigger] views(r@).contains(k),
    {
        &self.ids
    }

    /// The metadata of a rule.
    pub fn rule(&self, id: &str) -> (r: Option<&RuleMeta>)
        ensures
            match r {
                Some(m) => self@.rules.contains_key(id@) && *m == self@.rules[id@],
                None => !self@.rules.contains_key(id@),
            },
    {
        self.rules.get(id)
    }

    /// The journal, oldest first.
    pub fn journal(&self) -> (r: &Vec<JournalEntry>)
        ensures
            r@ == self@.journal,
    {
        &self.journal
    }

    /// Stores a rule without journaling it: its metadata now, its file in the returned
    /// transaction.
    pub fn upsert(&mut self, record: &RuleRecord) -> (r: Result<Transaction, Error>)
        requires
            old(self).well_formed(),
        ensures
            final(self).well_formed(),
            r is Ok <==> valid_id(record.id@),
            r is Ok ==> final(self)@.rules == old(self)@.rules.insert(record.id@, meta_of(*record))
                && final(self)@.journal == old(self)@.journal && writes_one(
                r->Ok_0,
                record.id@,
                record.knowledge@,
            ),
            r is Err ==> *final(self) == *old(self) && is_protocol(
                r->Err_0,
                invalid_id_message(record.id@),
            ),
    {
        if let Err(e) = validate_id(record.id.as_str()) {
            return Err(e);
        }
        self.put_rule(record.id.as_str(), rule_meta(record));
        Ok(write_one(record.id.as_str(), record.knowledge.as_str()))
    }

    /// Stores a rule created offline and journals its addition.
    pub fn upsert_and_record_add(&mut self, record: &RuleRecord) -> (r: Result<Transaction, Error>)
        requires
            old(self).well_formed(),
        ensures
            final(self).well_formed(),
            r is Ok <==> valid_id(record.id@),
            r is Ok ==> final(self)@.rules == old(self)@.rules.insert(record.id@, meta_of(*record))
                && appended(old(self)@.journal, final(self)@.journal, JournalOp::Add, record.id@)
                && writes_one(r->Ok_0, record.id@, record.knowledge@),
            r is Err ==> *final(self) == *old(self) && is_protocol(
                r->Err_0,
                invalid_id_message(record.id@),
            ),
    {
        if let Err(e) = validate_id(record.id.as_str()) {
            return Err(e);
        }
        self.put_rule(record.id.as_str(), rule_meta(record));
        self.journal.push(fresh(JournalOp::Add, record.id.as_str()));
        assert(self.journal@.take(old(self).journal@.len() as int) == old(self).journal@);
        Ok(write_one(record.id.as_str(), record.knowledge.as_str()))
    }

    /// Stores a rule changed offline and journals the change, coalescing it with a pending
    /// addition or update of the same rule.
    pub fn upsert_and_record_update(&mut self, record: &RuleRecord) -> (r: Result<
        Transaction,
        Error,
    >)
        requires
            old(self).well_formed(),
        ensures
            final(self).well_formed(),
            r is Ok <==> valid_id(record.id@),
            r is Ok ==> final(self)@.rules == old(self)@.rules.insert(record.id@, meta_of(*record))
                && journal_after_update(old(self)@.journal, final(self)@.journal, record.id@)
                && writes_one(r->Ok_0, record.id@, record.knowledge@),
            r is Err ==> *final(self) == *old(self) && is_protocol(
                r->Err_0,
                invalid_id_message(record.id@),
            ),
    {
        if let Err(e) = validate_id(record.id.as_str()) {
            return Err(e);
        }
        self.put_rule(record.id.as_str(), rule_meta(record));
        let id = record.id.as_str();
        if !journal_contains(self.journal.as_slice(), id, JournalOp::Add) {
            let op = if crate::text::starts_with(id, LOCAL_ID_PREFIX) {
                JournalOp::Add
            } else {
                JournalOp::Update
            };
            if !journal_contains(self.journal.as_slice(), id, op) {
                self.journal.push(fresh(op, id));
                assert(self.journal@.take(old(self)@.journal.len() as int) == old(self)@.journal);
            }
        }
        Ok(write_one(record.id.as_str(), record.knowledge.as_str()))
    }

    /// Removes a rule without journaling it.
    pub fn remove(&mut self, id: &str) -> (r: Result<Transaction, Error>)
        requires
            old(self).well_formed(),
        ensures
            final(self).well_formed(),
            r is Ok <==> valid_id(id@),
            r is Ok ==> final(self)@.rules == old(self)@.rules.remove(id@)
                && final(self)@.journal == old(self)@.journal && deletes_one(r->Ok_0, id@),
            r is Err ==> *final(self) == *old(self) && is_protocol(
                r->Err_0,
                invalid_id_message(id@),
            ),
    {
        if let Err(e) = validate_id(id) {
            return Err(e);
        }
        self.drop_rule(id);
        Ok(delete_one(id))
    }

    /// Removes a rule offline and journals the removal, unless upstream never saw the rule.
    pub fn remove_and_record(&mut self, id: &str) -> (r: Result<Transaction, Error>)
        requires
            old(self).well_formed(),
        ensures
            final(self).well_formed(),
            r is Ok <==> valid_id(id@),
            r is Ok ==> final(self)@.rules == old(self)@.rules.remove(id@)
                && journal_after_remove(old(self)@.journal, final(self)@.journal, id@)
                && deletes_one(r->Ok_0, id@),
            r is Err ==> *final(self) == *old(self) && is_protocol(
                r->Err_0,
                invalid_id_message(id@),
            ),
    {
        if let Err(e) = validate_id(id) {
            return Err(e);
        }
        self.drop_rule(id);
        let never_synced = journal_contains(self.journal.as_slice(), id, JournalOp::Add);
        let mut kept = entries_without(&self.journal, id);
        if !never_synced && !crate::text::starts_with(id, LOCAL_ID_PREFIX) {
            let ghost before = kept@;
            kept.push(fresh(JournalOp::Remove, id));
            assert(kept@.take(before.len() as int) == before);
        }
        self.journal = kept;
        Ok(delete_one(id))
    }

    /// The oldest journal entry, if any.
    pub fn journal_front(&self) -> (r: Option<JournalEntry>)
        ensures
            match r {
                Some(e) => self@.journal.len() > 0 && e == self@.journal[0],
                None => self@.journal.len() == 0,
            },
    {
        if self.journal.len() == 0 {
            None
        } else {
            Some(copy_entry(&self.journal[0]))
        }
    }

    /// Counts one explicit upstream rejection of the oldest entry and returns its count; 0 when
    /// the journal is empty.
    pub fn record_rejection(&mut self) -> (r: u32)
        requires
            old(self).well_formed(),
            old(self)@.journal.len() > 0 ==> old(self)@.journal[0].attempts < u32::MAX,
        ensures
            final(self).well_formed(),
            final(self)@.rules == old(self)@.rules,
            old(self)@.journal.len() == 0 ==> r == 0 && final(self)@.journal == old(self)@.journal,
            old(self)@.journal.len() > 0 ==> {
                &&& r == old(self)@.journal[0].attempts + 1
                &&& final(self)@.journal == old(self)@.journal.update(
                    0,
                    JournalEntry { attempts: r, ..old(self)@.journal[0] },
                )
            },
    {
        if self.journal.len() == 0 {
            return 0;
        }
        let first = copy_entry(&self.journal[0]);
        let attempts = first.attempts + 1;
        let updated = JournalEntry { op: first.op, id: first.id, attempts };
        self.journal.set(0, updated);
        attempts
    }

    /// Drops the oldest journal entry, if any.
    pub fn pop_journal(&mut self)
        requires
            old(self).well_formed(),
        ensures
            final(self).well_formed(),
            final(self)@.rules == old(self)@.rules,
            old(self)@.journal.len() == 0 ==> final(self)@.journal == old(self)@.journal,
            old(self)@.journal.len() > 0 ==> final(self)@.journal == old(self)@.journal.drop_first(),
    {
        if self.journal.len() > 0 {
            self.journal.remove(0);
        }
    }

    /// Gives a rule created offline the id upstream assigned: the metadata moves to the new id,
    /// the journaled addition leaves, and the file (whose text is `knowledge`) is renamed.
    pub fn promote_and_pop(&mut self, old_id: &str, new_id: &str, knowledge: &str) -> (r: Result<
        Transaction,
        Error,
    >)
        requires
            old(self).well_formed(),
        ensures
            final(self).well_formed(),
            r is Ok <==> (valid_id(old_id@) && valid_id(new_id@)),
            !valid_id(old_id@) ==> r is Err && is_protocol(r->Err_0, invalid_id_message(old_id@)),
            valid_id(old_id@) && !valid_id(new_id@) ==> r is Err && is_protocol(
                r->Err_0,
                invalid_id_message(new_id@),
            ),
            r is Err ==> *final(self) == *old(self),
            r is Ok ==> {
                &&& final(self)@.rules == if old(self)@.rules.contains_key(old_id@) {
                    old(self)@.rules.remove(old_id@).insert(new_id@, old(self)@.rules[old_id@])
                } else {
                    old(self)@.rules
                }
                &&& final(self)@.journal == if promotes_front(old(self)@.journal, old_id@) {
                    old(self)@.journal.drop_first()
                } else {
                    old(self)@.journal
                }
                &&& r->Ok_0.writes@.len() == 1 && r->Ok_0.writes@[0].0@ == new_id@
                    && r->Ok_0.writes@[0].1@ == knowledge@
                &&& r->Ok_0.deletes@.len() == 1 && r->Ok_0.deletes@[0]@ == old_id@
            },
    {
        if let Err(e) = validate_id(old_id) {
            return Err(e);
        }
        if let Err(e) = validate_id(new_id) {
            return Err(e);
        }
        let moved = match self.rules.get(old_id) {
            Some(m) => Some(
                RuleMeta {
                    title: m.title.clone(),
                    created_at: m.created_at.clone(),
                    is_generated: m.is_generated,
                    git_origin: m.git_origin.clone(),
                },
            ),
            None => None,
        };
        if let Some(meta) = moved {
            self.drop_rule(old_id);
            self.put_rule(new_id, meta);
        }
        if self.journal.len() > 0 && self.journal[0].op == JournalOp::Add && crate::text::str_eq(
            self.journal[0].id.as_str(),
            old_id,
        ) {
            self.journal.remove(0);
        }
        Ok(
            Transaction {
                writes: vec![(crate::text::copy(new_id), crate::text::copy(knowledge))],
                deletes: vec![crate::text::copy(old_id)],
            },
        )
    }

    /// Replaces the whole metadata by the complete upstream list; the journal stays. Files on
    /// disk (`on_disk`, by id) with a valid id that the list lacks are deleted; other files are
    /// left alone. Only called once the journal has been replayed.
    pub fn replace_all(&mut self, records: &[RuleRecord], on_disk: &[String]) -> (r: Result<
        Transaction,
        Error,
    >)
        requires
            old(self).well_formed(),
        ensures
            final(self).well_formed(),
            r is Ok <==> valid_before(records@, records@.len() as int),
            r is Err ==> *final(self) == *old(self) && exists|i: int|
                0 <= i < records@.len() && valid_before(records@, i) && !valid_id(
                    #[trigger] records@[i].id@,
                ) && is_protocol(r->Err_0, invalid_id_message(records@[i].id@)),
            r is Ok ==> {
                &&& final(self)@.rules == rules_of(records@)
                &&& final(self)@.journal == old(self)@.journal
                &&& write_views(r->Ok_0.writes@) == record_files(records@)
                &&& views(r->Ok_0.deletes@) == stale_files(views(on_disk@), rules_of(records@))
            },
    {
        let mut i: usize = 0;
        while i < records.len()
            invariant
                i <= records.len(),
                valid_before(records@, i as int),
                self.well_formed(),
                *self == *old(self),
            decreases records.len() - i,
        {
            if let Err(e) = validate_id(records[i].id.as_str()) {
                return Err(e);
            }
            i = i + 1;
        }
        self.rules.clear();
        self.ids = Vec::new();
        assert(views(self.ids@) =~= Seq::<Seq<char>>::empty());
        let mut writes: Vec<(String, String)> = Vec::new();
        let mut j: usize = 0;
        while j < records.len()
            invariant
                j <= records.len(),
                self.well_formed(),
                self@.rules == rules_of(records@.take(j as int)),
                self@.journal == old(self)@.journal,
                write_views(writes@) == record_files(records@.take(j as int)),
            decreases records.len() - j,
        {
            assert(records@.take(j as int + 1).drop_last() == records@.take(j as int));
            let record = &records[j];
            self.put_rule(record.id.as_str(), rule_meta(record));
            let ghost before = writes@;
            let pair = (crate::text::copy(record.id.as_str()), crate::text::copy(record.knowledge.as_str()));
            writes.push(pair);
            proof {
                assert(records@.take(j as int + 1) == records@.take(j as int).push(*record));
                assert(write_views(writes@) =~= write_views(before).push((record.id@, record.knowledge@)));
                assert(record_files(records@.take(j as int + 1)) =~= record_files(records@.take(j as int)).push((record.id@, record.knowledge@)));
            }
            j = j + 1;
        }
        assert(records@.take(records.len() as int) == records@);
        let mut deletes: Vec<String> = Vec::new();
        let mut k: usize = 0;
        while k < on_disk.len()
            invariant
                k <= on_disk.len(),
                self@.rules == rules_of(records@),
                views(deletes@) == stale_files(views(on_disk@).take(k as int), rules_of(records@)),
            decreases on_disk.len() - k,
        {
            assert(views(on_disk@).take(k as int + 1).drop_last() == views(on_disk@).take(k as int));
            let id = on_disk[k].as_str();
            if validate_id(id).is_ok() && !self.rules.contains_key(id) {
                deletes.push(crate::text::copy(id));
                assert(views(deletes@) =~= stale_files(views(on_disk@).take(k as int), rules_of(records@)).push(id@));
            }
            k = k + 1;
        }
        assert(views(on_disk@).take(on_disk.len() as int) == views(on_disk@));
        Ok(Transaction { writes, deletes })
    }

    /// After upstream explicitly rejected the oldest entry: counts the rejection, and once the
    /// entry has collected `MAX_REPLAY_REJECTIONS` of them drops it. Returns whether the replay
    /// goes on with the next entry.
    pub fn settle_rejection(&mut self) -> (go_on: bool)
        requires
            old(self).well_formed(),
            old(self)@.journal.len() > 0 ==> old(self)@.journal[0].attempts < u32::MAX,
        ensures
            final(self).well_formed(),
            final(self)@.rules == old(self)@.rules,
            old(self)@.journal.len() == 0 ==> !go_on && final(self)@.journal == old(self)@.journal,
            old(self)@.journal.len() > 0 ==> {
                let attempts = old(self)@.journal[0].attempts + 1;
                &&& go_on == (attempts >= MAX_REPLAY_REJECTIONS)
                &&& go_on ==> final(self)@.journal == old(self)@.journal.drop_first()
                &&& !go_on ==> final(self)@.journal == old(self)@.journal.update(
                    0,
                    JournalEntry { attempts: attempts as u32, ..old(self)@.journal[0] },
                )
            },
    {
        if self.journal.len() == 0 {
            return false;
        }
        let attempts = self.record_rejection();
        if attempts < MAX_REPLAY_REJECTIONS {
            return false;
        }
        self.pop_journal();
        assert(self@.journal == old(self)@.journal.drop_first());
        true
    }

    /// The replay's decision once the oldest entry's replay came to `outcome`: `None` to go on
    /// with the next entry, else the replay's result (see [`replay_step`]). An advanced
    /// entry's own replay has already dropped it, so the store stays as it is then.
    pub fn after_replay(&mut self, outcome: ReplayOutcome) -> (stop: Option<bool>)
        requires
            old(self).well_formed(),
            old(self)@.journal.len() > 0,
            outcome == ReplayOutcome::Rejected ==> old(self)@.journal[0].attempts < u32::MAX,
        ensures
            final(self).well_formed(),
            final(self)@.rules == old(self)@.rules,
            stop == replay_step(old(self)@.journal, outcome).0,
            outcome == ReplayOutcome::Advanced ==> final(self)@ == old(self)@,
            outcome != ReplayOutcome::Advanced ==> final(self)@.journal == replay_step(
                old(self)@.journal,
                outcome,
            ).1,
    {
        match outcome {
            ReplayOutcome::Advanced => None,
            ReplayOutcome::Unreachable => Some(false),
            ReplayOutcome::Rejected => {
                if self.settle_rejection() {
                    None
                } else {
                    Some(false)
                }
            },
        }
    }
}

/// What replaying the oldest journal entry upstream came to.
#[derive(Clone, Copy, Debug, PartialEq, Eq, Structural)]
pub enum ReplayOutcome {
    /// Upstream applied it (or it was void); its replay dropped it from the journal.
    Advanced,
    /// Upstream explicitly declined it.
    Rejected,
    /// Upstream could not be reached or gave no usable answer.
    Unreachable,
}

/// One replayed entry of a non-empty journal: whether the replay stops (and its result) and
/// the journal after it. An advanced entry leaves; an unreachable upstream stops the replay
/// with the journal as it was; a rejection is counted, and the entry leaves once it has
/// collected `MAX_REPLAY_REJECTIONS` of them, else the replay stops.
pub open spec fn replay_step(journal: Seq<JournalEntry>, outcome: ReplayOutcome) -> (
    Option<bool>,
    Seq<JournalEntry>,
) {
    match outcome {
        ReplayOutcome::Advanced => (None, journal.drop_first()),
        ReplayOutcome::Unreachable => (Some(false), journal),
        ReplayOutcome::Rejected => {
            let attempts = journal[0].attempts + 1;
            if attempts >= MAX_REPLAY_REJECTIONS {
                (None, journal.drop_first())
            } else {
                (
                    Some(false),
                    journal.update(0, JournalEntry { attempts: attempts as u32, ..journal[0] }),
                )
            }
        },
    }
}

/// A replay of `journal` in which the replays of the oldest entries come to `outcomes` in
/// turn: its result (`None` when the outcomes ran out first) and the journal it leaves. An
/// empty journal ends the replay with `true`.
pub open spec fn replay_run(journal: Seq<JournalEntry>, outcomes: Seq<ReplayOutcome>) -> (
    Option<bool>,
    Seq<JournalEntry>,
)
    decreases outcomes.len(),
{
    if journal.len() == 0 {
        (Some(true), journal)
    } else if outcomes.len() == 0 {
        (None, journal)
    } else {
        let step = replay_step(journal, outcomes[0]);
        match step.0 {
            Some(b) => (Some(b), step.1),
            None => replay_run(step.1, outcomes.drop_first()),
        }
    }
}

/// A replay ends with `true` exactly when it has drained the journal; what it leaves is the
/// journal without its settled oldest entries, the next one at most with one more rejection
/// counted; and an unreachable upstream for the oldest entry stops it with nothing changed.
pub proof fn lemma_replay_drains(journal: Seq<JournalEntry>, outcomes: Seq<ReplayOutcome>)
    ensures
        ({
            let (result, left) = replay_run(journal, outcomes);
            &&& (result == Some(true) <==> left.len() == 0)
            &&& left.len() <= journal.len()
            &&& forall|i: int|
                1 <= i < left.len() ==> left[i] == journal[journal.len() - left.len() + i]
            &&& left.len() > 0 ==> {
                let front = journal[journal.len() - left.len()];
                &&& left[0].op == front.op
                &&& left[0].id == front.id
            }
        }),
        journal.len() > 0 && outcomes.len() > 0 && outcomes[0] == ReplayOutcome::Unreachable
            ==> replay_run(journal, outcomes) == (Some(false), journal),
    decreases outcomes.len(),
{
    if journal.len() == 0 || outcomes.len() == 0 {
    } else {
        let step = replay_step(journal, outcomes[0]);
        match step.0 {
            Some(b) => {},
            None => {
                lemma_replay_drains(step.1, outcomes.drop_first());
                let left = replay_run(step.1, outcomes.drop_first()).1;
                assert(step.1 =~= journal.drop_first());
                assert forall|i: int| 1 <= i < left.len() implies left[i] == journal[journal.len()
                    - left.len() + i] by {
                    assert(left[i] == step.1[step.1.len() - left.len() + i]);
                }
            },
        }
    }
}

/// Mirrors the complete upstream list into the store: each item becomes a record without a git
/// origin, and the metadata is replaced by them.
pub fn mirror(store: &mut RuleStore, items: Vec<KnowledgeBaseListItem>, on_disk: &[String]) -> (r:
    Result<Transaction, Error>)
    requires
        old(store).well_formed(),
    ensures
        final(store).well_formed(),
        r is Ok <==> forall|j: int| 0 <= j < items@.len() ==> valid_id(#[trigger] items@[j].id@),
        r is Err ==> *final(store) == *old(store),
        r is Ok ==> exists|records: Seq<RuleRecord>|
            #![trigger rules_of(records)]
            records.len() == items@.len() && (forall|j: int|
                0 <= j < items@.len() ==> from_item(#[trigger] records[j], items@[j]))
                && final(store)@.rules == rules_of(records) && final(store)@.journal == old(
                store,
            )@.journal && write_views(r->Ok_0.writes@) == record_files(records) && views(
                r->Ok_0.deletes@,
            ) == stale_files(views(on_disk@), rules_of(records)),
{
    let mut records: Vec<RuleRecord> = Vec::new();
    let mut i: usize = 0;
    while i < items.len()
        invariant
            i <= items.len(),
            records@.len() == i,
            forall|j: int| 0 <= j < i ==> from_item(#[trigger] records@[j], items@[j]),
        decreases items.len() - i,
    {
        let item = &items[i];
        records.push(
            RuleRecord {
                id: item.id.clone(),
                knowledge: item.knowledge.clone(),
                title: item.title.clone(),
                created_at: item.created_at.clone(),
                is_generated: item.is_generated,
                git_origin: String::new(),
            },
        );
        i = i + 1;
    }
    assert forall|j: int| 0 <= j < items@.len() implies (valid_id(#[trigger] items@[j].id@)
        <==> valid_id(records@[j].id@)) by {}
    let r = store.replace_all(records.as_slice(), on_disk);
    proof {
        if r is Ok {
            assert(valid_before(records@, records@.len() as int));
        }
        if r is Err {
            let k = choose|k: int| 0 <= k < records@.len() && valid_before(records@, k) && !valid_id(
                #[trigger] records@[k].id@,
            );
            assert(!valid_id(items@[k].id@));
        }
    }
    r
}

/// The records of a git origin, in order; all of them when no origin is named.
pub open spec fn of_origin(records: Seq<RuleRecord>, git_origin: Seq<char>) -> Seq<RuleRecord>
    decreases records.len(),
{
    if records.len() == 0 {
        records
    } else if git_origin.len() == 0 || records.last().git_origin@ == git_origin {
        of_origin(records.drop_last(), git_origin).push(records.last())
    } else {
        of_origin(records.drop_last(), git_origin)
    }
}

/// How many of `n` items a requested limit leaves: a non-negative limit cuts the list to it; a
/// negative or missing one keeps all.
pub open spec fn limited(n: nat, limit: Option<i32>) -> nat {
    match limit {
        Some(l) => if l >= 0 && l < n {
            l as nat
        } else {
            n
        },
        None => n,
    }
}

/// Whether a listing item shows a record.
pub open spec fn shows(item: KnowledgeBaseListItem, record: RuleRecord) -> bool {
    &&& item.id@ == record.id@
    &&& item.knowledge@ == record.knowledge@
    &&& item.title@ == record.title@
    &&& item.created_at@ == record.created_at@
    &&& item.is_generated == record.is_generated
}

/// The number a limit cuts a list of `n` items to (see [`limited`]).
fn limit_of(n: usize, limit: Option<i32>) -> (r: usize)
    ensures
        r == limited(n as nat, limit),
{
    match limit {
        Some(l) => {
            if l >= 0 && (l as usize) < n {
                l as usize
            } else {
                n
            }
        },
        None => n,
    }
}

/// The listing of the local rules (in the store's listing order): those of the git origin
/// when one is named, cut to the requested limit.
pub fn local_listing(records: &Vec<RuleRecord>, git_origin: &str, limit: Option<i32>) -> (items: Vec<
    KnowledgeBaseListItem,
>)
    ensures
        items@.len() == limited(of_origin(records@, git_origin@).len(), limit),
        forall|j: int|
            0 <= j < items@.len() ==> shows(#[trigger] items@[j], of_origin(records@, git_origin@)[j]),
{
    let mut kept: Vec<&RuleRecord> = Vec::new();
    let mut i: usize = 0;
    let all = git_origin.is_empty();
    while i < records.len()
        invariant
            i <= records@.len(),
            all == (git_origin@.len() == 0),
            kept@.len() == of_origin(records@.take(i as int), git_origin@).len(),
            forall|j: int|
                0 <= j < kept@.len() ==> *(#[trigger] kept@[j]) == of_origin(records@.take(i as int), git_origin@)[j],
        decreases records@.len() - i,
    {
        assert(records@.take(i + 1).drop_last() =~= records@.take(i as int));
        let record = &records[i];
        if all || crate::text::str_eq(record.git_origin.as_str(), git_origin) {
            kept.push(record);
        }
        i = i + 1;
    }
    assert(records@.take(records@.len() as int) =~= records@);
    let n = limit_of(kept.len(), limit);
    let mut items: Vec<KnowledgeBaseListItem> = Vec::new();
    let mut j: usize = 0;
    while j < n
        invariant
            j <= n,
            n <= kept@.len(),
            items@.len() == j,
            forall|a: int| 0 <= a < kept@.len() ==> *(#[trigger] kept@[a]) == of_origin(records@, git_origin@)[a],
            forall|a: int| 0 <= a < j ==> shows(#[trigger] items@[a], of_origin(records@, git_origin@)[a]),
        decreases n - j,
    {
        let record = kept[j];
        items.push(
            KnowledgeBaseListItem {
                id: record.id.clone(),
                knowledge: record.knowledge.clone(),
                title: record.title.clone(),
                created_at: record.created_at.clone(),
                is_generated: record.is_generated,
            },
        );
        j = j + 1;
    }
    items
}

/// Whether an upstream listing replaces the local rules: only a successful, unfiltered one (a
/// list filtered by git origin is a subset, and mirroring it would delete other rules).
pub fn mirrors_upstream_list(success: bool, git_origin: &str) -> (r: bool)
    ensures
        r == (success && git_origin@.len() == 0),
{
    success && git_origin.is_empty()
}

/// A rule relevant to a conversation.
pub struct RelevantKnowledgeItem {
    pub title: String,
    pub knowledge: String,
    pub knowledge_id: String,
    pub is_generated: bool,
}

/// The rules relevant to a conversation: rules are global across git origins, so every stored
/// rule, in the store's listing order, cut to the requested limit.
pub fn relevant_items(records: &Vec<RuleRecord>, limit: Option<i32>) -> (items: Vec<RelevantKnowledgeItem>)
    ensures
        items@.len() == limited(records@.len(), limit),
        forall|j: int|
            0 <= j < items@.len() ==> {
                let item = #[trigger] items@[j];
                &&& item.knowledge_id@ == records@[j].id@
                &&& item.knowledge@ == records@[j].knowledge@
                &&& item.title@ == records@[j].title@
                &&& item.is_generated == records@[j].is_generated
            },
{
    let n = limit_of(records.len(), limit);
    let mut items: Vec<RelevantKnowledgeItem> = Vec::new();
    let mut j: usize = 0;
    while j < n
        invariant
            j <= n,
            n <= records@.len(),
            items@.len() == j,
            forall|a: int|
                0 <= a < j ==> {
                    let item = #[trigger] items@[a];
                    &&& item.knowledge_id@ == records@[a].id@
                    &&& item.knowledge@ == records@[a].knowledge@
                    &&& item.title@ == records@[a].title@
                    &&& item.is_generated == records@[a].is_generated
                },
        decreases n - j,
    {
        let record = &records[j];
        items.push(
            RelevantKnowledgeItem {
                title: record.title.clone(),
                knowledge: record.knowledge.clone(),
                knowledge_id: record.id.clone(),
                is_generated: record.is_generated,
            },
        );
        j = j + 1;
    }
    items
}

/// The record an update keeps once upstream accepted it: the new knowledge and title under the
/// id, with the creation time, generated flag and git origin of the existing record (or now, not
/// generated and no origin for a rule not stored here).
pub fn accepted_update(
    id: &str,
    knowledge: &str,
    title: &str,
    existing: Option<&RuleRecord>,
    now: &str,
) -> (r: RuleRecord)
    ensures
        r.id@ == id@,
        r.knowledge@ == knowledge@,
        r.title@ == title@,
        match existing {
            Some(e) => r.created_at@ == e.created_at@ && r.is_generated == e.is_generated
                && r.git_origin@ == e.git_origin@,
            None => r.created_at@ == now@ && !r.is_generated && r.git_origin@ == Seq::<char>::empty(),
        },
{
    match existing {
        Some(e) => RuleRecord {
            id: crate::text::copy(id),
            knowledge: crate::text::copy(knowledge),
            title: crate::text::copy(title),
            created_at: e.created_at.clone(),
            is_generated: e.is_generated,
            git_origin: e.git_origin.clone(),
        },
        None => RuleRecord {
            id: crate::text::copy(id),
            knowledge: crate::text::copy(knowledge),
            title: crate::text::copy(title),
            created_at: crate::text::copy(now),
            is_generated: false,
            git_origin: String::new(),
        },
    }
}

/// A local update: the stored record with the new knowledge and title; nothing (the update
/// fails) for a rule that is not stored.
pub fn local_update(existing: Option<RuleRecord>, knowledge: &str, title: &str) -> (r: Option<RuleRecord>)
    ensures
        match existing {
            Some(e) => r matches Some(n) && n.id == e.id && n.knowledge@ == knowledge@ && n.title@
                == title@ && n.created_at == e.created_at && n.is_generated == e.is_generated
                && n.git_origin == e.git_origin,
            None => r is None,
        },
{
    match existing {
        Some(e) => {
            let RuleRecord { id, knowledge: _, title: _, created_at, is_generated, git_origin } = e;
            Some(
                RuleRecord {
                    id,
                    knowledge: crate::text::copy(knowledge),
                    title: crate::text::copy(title),
                    created_at,
                    is_generated,
                    git_origin,
                },
            )
        },
        None => None,
    }
}

} // verus!
