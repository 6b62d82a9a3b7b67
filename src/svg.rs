//! Prefixes the element ids of an SVG, and every reference to them, so that several
//! SVGs can share one HTML page.
use vstd::prelude::*;

use xml::reader::XmlEvent;
use xml::attribute::OwnedAttribute;
use xml::name::OwnedName;
use xml::namespace::Namespace;
use xml::writer::{EventWriter, XmlEvent as WriterEvent};

use crate::text::{chars_of, is_ascii_letter_or_digit, push_chars, push_str, slice_chars, string_of, trim_chars, trimmed};

verus! {

#[verifier::external_type_specification]
#[verifier::external_body]
pub struct ExXmlEvent(xml::reader::XmlEvent);

/// What `Regex::replace_all` gives for a pattern, a text and a replacement.
pub uninterp spec fn regex_replaced_all(pattern: Seq<char>, text: Seq<char>, replacement: Seq<char>) -> Seq<char>;

/// What `Regex::replace` gives (the first match only) for a pattern, a text and a
/// replacement.
pub uninterp spec fn regex_replaced_first(pattern: Seq<char>, text: Seq<char>, replacement: Seq<char>) -> Seq<char>;

/// Relies on `regex::Regex::new` and `Regex::replace_all`: every match of `pattern`
/// replaced. The patterns given here are fixed and valid; were one not, the text
/// would come back as it is.
#[verifier::external_body]
pub(crate) fn replace_all_matches(pattern: &str, text: &str, replacement: &str) -> (r: String)
    ensures
        r@ == regex_replaced_all(pattern@, text@, replacement@),
{
    match regex::Regex::new(pattern) {
        Ok(re) => re.replace_all(text, replacement).into_owned(),
        Err(_) => text.to_string(),
    }
}

/// Relies on `regex::Regex::new` and `Regex::replace`: the first match of `pattern`
/// replaced. The patterns given here are fixed and valid; were one not, the text
/// would come back as it is.
#[verifier::external_body]
pub(crate) fn replace_first_match(pattern: &str, text: &str, replacement: &str) -> (r: String)
    ensures
        r@ == regex_replaced_first(pattern@, text@, replacement@),
{
    match regex::Regex::new(pattern) {
        Ok(re) => re.replace(text, replacement).into_owned(),
        Err(_) => text.to_string(),
    }
}

/// The textual clean-up used when an SVG cannot be parsed: the DOCTYPE and XML
/// declarations removed, whitespace between tags removed, runs of blank lines
/// collapsed, and the ends trimmed.
pub open spec fn simple_inline(s: Seq<char>) -> Seq<char> {
    trimmed(
        regex_replaced_all(
            "\\n\\n+"@,
            regex_replaced_all(
                ">\\s+<"@,
                regex_replaced_first("<\\?xml [^>]+\\?>"@, regex_replaced_first("<!DOCTYPE [^>]+>"@, s, ""@), ""@),
                "><"@,
            ),
            "\n"@,
        ),
    )
}

/// Prepares an SVG for inlining without parsing it (no id is prefixed).
pub fn format_for_inline_simple(output: &str) -> (r: String)
    ensures
        r@ == simple_inline(output@),
{
    let a = replace_first_match("<!DOCTYPE [^>]+>", output, "");
    let b = replace_first_match("<\\?xml [^>]+\\?>", a.as_str(), "");
    let c = replace_all_matches(">\\s+<", b.as_str(), "><");
    let d = replace_all_matches("\\n\\n+", c.as_str(), "\n");
    string_of(&trim_chars(&chars_of(d.as_str())))
}

/// Characters that may continue an id after `#`: the XML name characters, that is
/// ASCII letters, digits, `-`, `_`, `.`, `:`, and any character beyond ASCII.
pub open spec fn is_id_char(c: char) -> bool {
    is_ascii_letter_or_digit(c) || c == '-' || c == '_' || c == '.' || c == ':' || (c as u32) >= 128
}

/// How many id characters `s` starts with.
pub open spec fn token_len(s: Seq<char>) -> nat
    decreases s.len(),
{
    if s.len() > 0 && is_id_char(s[0]) {
        1 + token_len(s.drop_first())
    } else {
        0
    }
}

/// `s` with each reference `#{id}` to a listed id, the id read as a whole token,
/// turned into `#{prefix}-{id}`. A reference to an id that is not listed, and a
/// listed id that is only the start of a longer token, stay as they are.
pub open spec fn rewrite_refs(s: Seq<char>, ids: Seq<Seq<char>>, prefix: Seq<char>) -> Seq<char>
    decreases s.len(),
{
    if s.len() == 0 {
        Seq::empty()
    } else if s[0] == '#' {
        let t = token_len(s.drop_first()) as int;
        let tok = s.subrange(1, 1 + t);
        if t > 0 && 1 + t <= s.len() && ids.contains(tok) {
            seq!['#'] + prefix + seq!['-'] + tok + rewrite_refs(s.subrange(1 + t, s.len() as int), ids, prefix)
        } else {
            seq!['#'] + rewrite_refs(s.drop_first(), ids, prefix)
        }
    } else {
        seq![s[0]] + rewrite_refs(s.drop_first(), ids, prefix)
    }
}

pub open spec fn chars_view(v: Seq<Vec<char>>) -> Seq<Seq<char>> {
    v.map_values(|x: Vec<char>| x@)
}

fn is_id_character(c: char) -> (r: bool)
    ensures
        r == is_id_char(c),
{
    ('a' <= c && c <= 'z') || ('A' <= c && c <= 'Z') || ('0' <= c && c <= '9') || c == '-' || c == '_'
        || c == '.' || c == ':' || (c as u32) >= 128
}

fn token_length(s: &Vec<char>, from: usize) -> (r: usize)
    requires
        from <= s@.len(),
    ensures
        r == token_len(s@.subrange(from as int, s@.len() as int)),
        from + r <= s@.len(),
{
    let mut j: usize = from;
    while j < s.len() && is_id_character(s[j])
        invariant
            from <= j <= s@.len(),
            token_len(s@.subrange(from as int, s@.len() as int)) == (j - from) + token_len(
                s@.subrange(j as int, s@.len() as int),
            ),
        decreases s.len() - j,
    {
        assert(s@.subrange(j as int, s@.len() as int).drop_first() =~= s@.subrange(j + 1, s@.len() as int));
        j = j + 1;
    }
    j - from
}

fn same_chars(a: &Vec<char>, b: &Vec<char>) -> (r: bool)
    ensures
        r == (a@ == b@),
{
    if a.len() != b.len() {
        return false;
    }
    let mut i: usize = 0;
    while i < a.len()
        invariant
            a@.len() == b@.len(),
            i <= a@.len(),
            forall|j: int| 0 <= j < i ==> a@[j] == b@[j],
        decreases a.len() - i,
    {
        if a[i] != b[i] {
            return false;
        }
        i = i + 1;
    }
    assert(a@ =~= b@);
    true
}

fn contains_chars(ids: &Vec<Vec<char>>, tok: &Vec<char>) -> (r: bool)
    ensures
        r == chars_view(ids@).contains(tok@),
{
    let mut i: usize = 0;
    while i < ids.len()
        invariant
            i <= ids@.len(),
            forall|j: int| 0 <= j < i ==> ids@[j]@ != tok@,
        decreases ids.len() - i,
    {
        if same_chars(&ids[i], tok) {
            assert(chars_view(ids@)[i as int] == tok@);
            return true;
        }
        i = i + 1;
    }
    assert forall|j: int| 0 <= j < chars_view(ids@).len() implies chars_view(ids@)[j] != tok@ by {
        assert(ids@[j]@ != tok@);
    }
    false
}

/// Rewrites the references to listed ids in `s`, reading it once from left to right.
pub fn rewrite_references(s: &Vec<char>, ids: &Vec<Vec<char>>, prefix: &Vec<char>) -> (r: Vec<char>)
    ensures
        r@ == rewrite_refs(s@, chars_view(ids@), prefix@),
{
    let ghost idv = chars_view(ids@);
    let n = s.len();
    let mut out: Vec<char> = Vec::new();
    let mut i: usize = 0;
    assert(s@.subrange(0, n as int) =~= s@);
    while i < n
        invariant
            n == s@.len(),
            i <= n,
            idv == chars_view(ids@),
            out@ + rewrite_refs(s@.subrange(i as int, n as int), idv, prefix@) == rewrite_refs(s@, idv, prefix@),
        decreases n - i,
    {
        let ghost rest = s@.subrange(i as int, n as int);
        assert(rest.drop_first() =~= s@.subrange(i + 1, n as int));
        if s[i] == '#' {
            let t = token_length(s, i + 1);
            let tok = slice_chars(s, i + 1, i + 1 + t);
            assert(tok@ =~= rest.subrange(1, 1 + t));
            if t > 0 && contains_chars(ids, &tok) {
                out.push('#');
                push_chars(&mut out, prefix);
                out.push('-');
                push_chars(&mut out, &tok);
                assert(rest.subrange(1 + t, rest.len() as int) =~= s@.subrange(i + 1 + t, n as int));
                assert(out@ + rewrite_refs(s@.subrange(i + 1 + t, n as int), idv, prefix@)
                    =~= rewrite_refs(s@, idv, prefix@));
                i = i + 1 + t;
            } else {
                out.push('#');
                assert(out@ + rewrite_refs(s@.subrange(i + 1, n as int), idv, prefix@)
                    =~= rewrite_refs(s@, idv, prefix@));
                i = i + 1;
            }
        } else {
            out.push(s[i]);
            assert(out@ + rewrite_refs(s@.subrange(i + 1, n as int), idv, prefix@)
                =~= rewrite_refs(s@, idv, prefix@));
            i = i + 1;
        }
    }
    assert(rewrite_refs(s@.subrange(n as int, n as int), idv, prefix@) =~= Seq::<char>::empty());
    assert(out@ =~= out@ + Seq::<char>::empty());
    out
}

/// A non-empty run of id characters.
pub open spec fn is_token(t: Seq<char>) -> bool {
    t.len() > 0 && forall|i: int| 0 <= i < t.len() ==> is_id_char(#[trigger] t[i])
}

proof fn lemma_token_len_of_token_then_stop(t: Seq<char>, rest: Seq<char>)
    requires
        forall|i: int| 0 <= i < t.len() ==> is_id_char(#[trigger] t[i]),
        rest.len() == 0 || !is_id_char(rest[0]),
    ensures
        token_len(t + rest) == t.len(),
    decreases t.len(),
{
    if t.len() == 0 {
        assert(t + rest =~= rest);
    } else {
        assert((t + rest).drop_first() =~= t.drop_first() + rest);
        assert forall|i: int| 0 <= i < t.drop_first().len() implies is_id_char(#[trigger] t.drop_first()[i]) by {
            assert(t.drop_first()[i] == t[i + 1]);
        }
        lemma_token_len_of_token_then_stop(t.drop_first(), rest);
    }
}

/// A reference `#{t}` is read as one whole token: it becomes `#{prefix}-{t}` exactly
/// when `t` itself is a listed id, whatever other listed ids `t` starts with or is the
/// start of (with ids `a` and `ab`, `#ab` becomes `#{prefix}-ab`, and `#a` becomes
/// `#{prefix}-a`). What follows the token is rewritten on its own.
pub proof fn lemma_reference_rewritten_as_token(
    t: Seq<char>,
    rest: Seq<char>,
    ids: Seq<Seq<char>>,
    prefix: Seq<char>,
)
    requires
        is_token(t),
        rest.len() == 0 || !is_id_char(rest[0]),
    ensures
        rewrite_refs(seq!['#'] + t + rest, ids, prefix) == (if ids.contains(t) {
            seq!['#'] + prefix + seq!['-'] + t
        } else {
            seq!['#'] + t
        }) + rewrite_refs(rest, ids, prefix),
{
    let s = seq!['#'] + t + rest;
    assert(s.drop_first() =~= t + rest);
    lemma_token_len_of_token_then_stop(t, rest);
    assert(s.subrange(1, 1 + t.len() as int) =~= t);
    assert(s.subrange(1 + t.len() as int, s.len() as int) =~= rest);
    if !ids.contains(t) {
        assert forall|i: int| 0 <= i < t.len() implies #[trigger] t[i] != '#' by {
            assert(is_id_char(t[i]));
        }
        lemma_no_hash_in_token_prefix(t, rest, ids, prefix);
        assert(s.drop_first() =~= t + rest);
    }
}

proof fn lemma_no_hash_in_token_prefix(t: Seq<char>, rest: Seq<char>, ids: Seq<Seq<char>>, prefix: Seq<char>)
    requires
        forall|i: int| 0 <= i < t.len() ==> #[trigger] t[i] != '#',
    ensures
        rewrite_refs(t + rest, ids, prefix) == t + rewrite_refs(rest, ids, prefix),
    decreases t.len(),
{
    if t.len() == 0 {
        assert(t + rest =~= rest);
    } else {
        assert((t + rest).drop_first() =~= t.drop_first() + rest);
        assert((t + rest)[0] == t[0]);
        assert forall|i: int| 0 <= i < t.drop_first().len() implies #[trigger] t.drop_first()[i] != '#' by {
            assert(t.drop_first()[i] == t[i + 1]);
        }
        lemma_no_hash_in_token_prefix(t.drop_first(), rest, ids, prefix);
        assert(t =~= seq![t[0]] + t.drop_first());
    }
}

/// An attribute of an SVG element: its qualified name (`prefix:local` or `local`)
/// and its value.
pub struct XmlAttr {
    pub name: String,
    pub value: String,
}

pub open spec fn attrs_view(v: Seq<XmlAttr>) -> Seq<(Seq<char>, Seq<char>)> {
    v.map_values(|a: XmlAttr| (a.name@, a.value@))
}

/// The plain `id` attribute, with no prefix.
pub open spec fn is_id_attr(a: (Seq<char>, Seq<char>)) -> bool {
    a.0 == "id"@
}

/// The value an attribute gets in the first pass: an id becomes `{prefix}-{id}`.
pub open spec fn prefixed_value(a: (Seq<char>, Seq<char>), prefix: Seq<char>) -> Seq<char> {
    if is_id_attr(a) {
        prefix + seq!['-'] + a.1
    } else {
        a.1
    }
}

/// The ids that a list of attributes declares, in order.
pub open spec fn declared_ids(attrs: Seq<(Seq<char>, Seq<char>)>) -> Seq<Seq<char>>
    decreases attrs.len(),
{
    if attrs.len() == 0 {
        Seq::empty()
    } else if is_id_attr(attrs.last()) {
        declared_ids(attrs.drop_last()).push(attrs.last().1)
    } else {
        declared_ids(attrs.drop_last())
    }
}

/// Each attribute with its value prefixed (ids) and its references rewritten.
pub open spec fn rewritten_attrs(
    attrs: Seq<(Seq<char>, Seq<char>)>,
    ids: Seq<Seq<char>>,
    prefix: Seq<char>,
) -> Seq<(Seq<char>, Seq<char>)> {
    attrs.map_values(|a: (Seq<char>, Seq<char>)| (a.0, rewrite_refs(prefixed_value(a, prefix), ids, prefix)))
}

fn is_id_attribute(a: &XmlAttr) -> (r: bool)
    ensures
        r == is_id_attr((a.name@, a.value@)),
{
    proof {
        reveal_strlit("id");
    }
    let name = chars_of(a.name.as_str());
    if name.len() == 2 && name[0] == 'i' && name[1] == 'd' {
        assert(name@ =~= "id"@);
        true
    } else {
        assert(name@ != "id"@);
        false
    }
}

/// Adds the ids that `attrs` declares to `ids`.
pub fn collect_ids(attrs: &Vec<XmlAttr>, ids: &mut Vec<Vec<char>>)
    ensures
        chars_view(final(ids)@) == chars_view(old(ids)@) + declared_ids(attrs_view(attrs@)),
{
    let mut i: usize = 0;
    while i < attrs.len()
        invariant
            i <= attrs@.len(),
            chars_view(ids@) == chars_view(old(ids)@) + declared_ids(attrs_view(attrs@.subrange(0, i as int))),
        decreases attrs.len() - i,
    {
        let ghost sub = attrs@.subrange(0, i + 1);
        assert(attrs_view(sub).drop_last() =~= attrs_view(attrs@.subrange(0, i as int)));
        assert(attrs_view(sub).last() == (attrs@[i as int].name@, attrs@[i as int].value@));
        let ghost prev = ids@;
        if is_id_attribute(&attrs[i]) {
            let v = chars_of(attrs[i].value.as_str());
            ids.push(v);
            assert(chars_view(ids@) =~= chars_view(prev).push(attrs@[i as int].value@));
        } else {
            assert(chars_view(ids@) =~= chars_view(prev));
        }
        i = i + 1;
        assert(chars_view(ids@) =~= chars_view(old(ids)@) + declared_ids(attrs_view(attrs@.subrange(0, i as int))));
    }
    assert(attrs@.subrange(0, attrs@.len() as int) =~= attrs@);
}

/// The attributes with ids prefixed and every reference to a known id rewritten.
pub fn rewritten_attributes(attrs: &Vec<XmlAttr>, ids: &Vec<Vec<char>>, prefix: &str) -> (r: Vec<XmlAttr>)
    ensures
        attrs_view(r@) == rewritten_attrs(attrs_view(attrs@), chars_view(ids@), prefix@),
{
    let pre = chars_of(prefix);
    let mut out: Vec<XmlAttr> = Vec::new();
    let mut i: usize = 0;
    while i < attrs.len()
        invariant
            i <= attrs@.len(),
            pre@ == prefix@,
            attrs_view(out@) == rewritten_attrs(attrs_view(attrs@.subrange(0, i as int)), chars_view(ids@), prefix@),
        decreases attrs.len() - i,
    {
        let a = &attrs[i];
        let mut v: Vec<char> = Vec::new();
        if is_id_attribute(a) {
            push_chars(&mut v, &pre);
            v.push('-');
        }
        push_str(&mut v, a.value.as_str());
        assert(v@ =~= prefixed_value((a.name@, a.value@), prefix@));
        let w = rewrite_references(&v, ids, &pre);
        let ghost before = out@;
        let item = XmlAttr { name: string_of(&chars_of(a.name.as_str())), value: string_of(&w) };
        out.push(item);
        proof {
            let sub = attrs@.subrange(0, i + 1);
            assert(attrs_view(sub) =~= attrs_view(attrs@.subrange(0, i as int)).push((a.name@, a.value@)));
            assert(attrs_view(out@) =~= attrs_view(before).push((a.name@, w@)));
        }
        i = i + 1;
        assert(attrs_view(out@) =~= rewritten_attrs(attrs_view(attrs@.subrange(0, i as int)), chars_view(ids@), prefix@));
    }
    assert(attrs@.subrange(0, attrs@.len() as int) =~= attrs@);
    out
}

/// The new text of character data: references to known ids rewritten, then runs of
/// blank lines collapsed to one line feed.
pub open spec fn rewritten_text_of(text: Seq<char>, ids: Seq<Seq<char>>, prefix: Seq<char>) -> Seq<char> {
    regex_replaced_all("\\n\\n+"@, rewrite_refs(text, ids, prefix), "\n"@)
}

pub fn rewritten_text(text: &str, ids: &Vec<Vec<char>>, prefix: &str) -> (r: String)
    ensures
        r@ == rewritten_text_of(text@, chars_view(ids@), prefix@),
{
    let w = rewrite_references(&chars_of(text), ids, &chars_of(prefix));
    let ws = string_of(&w);
    replace_all_matches("\\n\\n+", ws.as_str(), "\n")
}

/// What kind of character data a text node is.
#[derive(PartialEq, Eq, Structural, Clone, Copy)]
pub enum TextKind {
    Characters,
    CData,
    Comment,
}

/// One event of an SVG document, as plain values; names are qualified.
pub enum SvgNode {
    DocumentStart,
    Start { name: String, attributes: Vec<XmlAttr>, namespace: Vec<(String, String)> },
    End { name: String },
    Text { kind: TextKind, text: String },
    Instruction { name: String, data: Option<String> },
    DocumentEnd,
}

/// An SVG event with its text as characters.
pub enum NodeView {
    DocumentStart,
    Start { name: Seq<char>, attributes: Seq<(Seq<char>, Seq<char>)>, namespace: Seq<(Seq<char>, Seq<char>)> },
    End { name: Seq<char> },
    Text { kind: TextKind, text: Seq<char> },
    Instruction { name: Seq<char>, data: Option<Seq<char>> },
    DocumentEnd,
}

pub open spec fn pairs_view(v: Seq<(String, String)>) -> Seq<(Seq<char>, Seq<char>)> {
    v.map_values(|p: (String, String)| (p.0@, p.1@))
}

pub open spec fn node_view(n: SvgNode) -> NodeView {
    match n {
        SvgNode::DocumentStart => NodeView::DocumentStart,
        SvgNode::Start { name, attributes, namespace } => NodeView::Start {
            name: name@,
            attributes: attrs_view(attributes@),
            namespace: pairs_view(namespace@),
        },
        SvgNode::End { name } => NodeView::End { name: name@ },
        SvgNode::Text { kind, text } => NodeView::Text { kind, text: text@ },
        SvgNode::Instruction { name, data } => NodeView::Instruction {
            name: name@,
            data: match data {
                Some(d) => Some(d@),
                None => None,
            },
        },
        SvgNode::DocumentEnd => NodeView::DocumentEnd,
    }
}

pub open spec fn nodes_view(v: Seq<SvgNode>) -> Seq<NodeView> {
    v.map_values(|n: SvgNode| node_view(n))
}

/// What xml-rs reads from a text (whitespace trimmed): its events up to the end of the
/// document, or nothing when the text is not well-formed.
pub uninterp spec fn svg_nodes(s: Seq<char>) -> Option<Seq<NodeView>>;

/// What xml-rs writes for a list of events (no declaration, no line separators), or
/// nothing when the writer fails.
pub uninterp spec fn svg_written(nodes: Seq<NodeView>) -> Option<Seq<char>>;

/// The ids that a document declares, in order.
pub open spec fn document_ids(nodes: Seq<NodeView>) -> Seq<Seq<char>>
    decreases nodes.len(),
{
    if nodes.len() == 0 {
        Seq::empty()
    } else {
        document_ids(nodes.drop_last()) + match nodes.last() {
            NodeView::Start { attributes, .. } => declared_ids(attributes),
            _ => Seq::empty(),
        }
    }
}

/// One event after the rewrite: attributes and character data get their ids
/// prefixed and references rewritten; everything else, names included, stays as it
/// was.
pub open spec fn rewritten_node(n: NodeView, ids: Seq<Seq<char>>, prefix: Seq<char>) -> NodeView {
    match n {
        NodeView::Start { name, attributes, namespace } => NodeView::Start {
            name,
            attributes: rewritten_attrs(attributes, ids, prefix),
            namespace,
        },
        NodeView::Text { kind, text } => NodeView::Text { kind, text: rewritten_text_of(text, ids, prefix) },
        _ => n,
    }
}

/// The events to write: the document start left out, every other event rewritten,
/// in order.
pub open spec fn rewritten_nodes(nodes: Seq<NodeView>, ids: Seq<Seq<char>>, prefix: Seq<char>) -> Seq<NodeView>
    decreases nodes.len(),
{
    if nodes.len() == 0 {
        Seq::empty()
    } else {
        let rest = rewritten_nodes(nodes.drop_last(), ids, prefix);
        if nodes.last() is DocumentStart {
            rest
        } else {
            rest.push(rewritten_node(nodes.last(), ids, prefix))
        }
    }
}

/// The rewritten SVG, when it can be read and written.
pub open spec fn rewritten_svg(s: Seq<char>, prefix: Seq<char>) -> Option<Seq<char>> {
    match svg_nodes(s) {
        Some(nodes) => svg_written(rewritten_nodes(nodes, document_ids(nodes), prefix)),
        None => None,
    }
}

/// The markup inlined for an SVG: the rewritten SVG, or the textual clean-up when it
/// cannot be read or written.
pub open spec fn inline_svg(s: Seq<char>, prefix: Seq<char>) -> Seq<char> {
    match rewritten_svg(s, prefix) {
        Some(t) => t,
        None => simple_inline(s),
    }
}

pub open spec fn no_document_start(nodes: Seq<NodeView>) -> bool {
    forall|i: int| 0 <= i < nodes.len() ==> !((#[trigger] nodes[i]) is DocumentStart)
}

#[verifier::external_type_specification]
#[verifier::external_body]
pub struct ExOwnedName(xml::name::OwnedName);

#[verifier::external_type_specification]
#[verifier::external_body]
pub struct ExOwnedAttribute(xml::attribute::OwnedAttribute);

#[verifier::external_type_specification]
#[verifier::external_body]
pub struct ExNamespace(xml::namespace::Namespace);

#[verifier::external_type_specification]
#[verifier::external_body]
#[verifier::reject_recursive_types(W)]
pub struct ExEventWriter<W>(xml::writer::EventWriter<W>);

/// Relies on xml-rs's `OwnedAttribute`, `Namespace` and `Name::to_repr`: a start tag
/// as plain values.
#[verifier::external_body]
fn start_node(name: &OwnedName, attributes: &Vec<OwnedAttribute>, namespace: &Namespace) -> (r: SvgNode) {
    SvgNode::Start {
        name: name.borrow().to_repr(),
        attributes: attributes.iter().map(|a| XmlAttr { name: a.name.borrow().to_repr(), value: a.value.clone() }).collect(),
        namespace: namespace.iter().map(|(p, u)| (p.to_string(), u.to_string())).collect(),
    }
}

/// Relies on xml-rs's `XmlEvent`: each event as plain values, names by
/// `Name::to_repr`; whitespace is character data, as the writer has it.
#[verifier::external_body]
fn svg_node(e: &XmlEvent) -> (r: SvgNode) {
    match e {
        XmlEvent::StartDocument { .. } => SvgNode::DocumentStart,
        XmlEvent::EndDocument => SvgNode::DocumentEnd,
        XmlEvent::StartElement { name, attributes, namespace } => start_node(name, attributes, namespace),
        XmlEvent::EndElement { name } => SvgNode::End { name: name.borrow().to_repr() },
        XmlEvent::Characters(t) | XmlEvent::Whitespace(t) => SvgNode::Text { kind: TextKind::Characters, text: t.clone() },
        XmlEvent::CData(t) => SvgNode::Text { kind: TextKind::CData, text: t.clone() },
        XmlEvent::Comment(t) => SvgNode::Text { kind: TextKind::Comment, text: t.clone() },
        XmlEvent::ProcessingInstruction { name, data } => SvgNode::Instruction { name: name.clone(), data: data.clone() },
    }
}

/// Relies on xml-rs's `ParserConfig` (whitespace trimmed) and `EventReader`: the
/// events of the document up to its end, or the parser's error as text.
#[verifier::external_body]
fn parse_svg(s: &str) -> (r: Result<Vec<SvgNode>, String>)
    ensures
        r is Ok <==> svg_nodes(s@) is Some,
        r is Ok ==> nodes_view(r->Ok_0@) == svg_nodes(s@)->0,
{
    let reader = xml::ParserConfig::new().trim_whitespace(true).create_reader(s.as_bytes());
    let events = reader.into_iter().collect::<Result<Vec<_>, _>>().map_err(|e| e.to_string())?;
    Ok(events.iter().map(svg_node).collect())
}

/// Relies on xml-rs's `StartElementBuilder` and `EventWriter::write`: writes a start
/// tag with its namespace bindings and attributes.
#[verifier::external_body]
fn write_start(w: &mut EventWriter<&mut Vec<u8>>, name: &String, attributes: &Vec<XmlAttr>, namespace: &Vec<(String, String)>) -> (r: Result<(), String>) {
    let mut b = WriterEvent::start_element(name.as_str());
    for (p, u) in namespace {
        b = b.ns(p.as_str(), u.as_str());
    }
    for a in attributes {
        b = b.attr(a.name.as_str(), a.value.as_str());
    }
    w.write(b).map_err(|e| e.to_string())
}

/// Relies on xml-rs's writer `XmlEvent` and `EventWriter::write`: writes one event.
#[verifier::external_body]
fn write_node(w: &mut EventWriter<&mut Vec<u8>>, n: &SvgNode) -> (r: Result<(), String>) {
    let written = match n {
        SvgNode::Start { name, attributes, namespace } => return write_start(w, name, attributes, namespace),
        SvgNode::End { name } => w.write(WriterEvent::end_element().name(name.as_str())),
        SvgNode::Text { kind: TextKind::CData, text } => w.write(WriterEvent::cdata(text)),
        SvgNode::Text { kind: TextKind::Comment, text } => w.write(WriterEvent::comment(text)),
        SvgNode::Text { text, .. } => w.write(WriterEvent::characters(text)),
        SvgNode::Instruction { name, data } => w.write(WriterEvent::processing_instruction(name, data.as_deref())),
        SvgNode::DocumentStart | SvgNode::DocumentEnd => return Ok(()),
    };
    written.map_err(|e| e.to_string())
}

/// Relies on xml-rs's `EmitterConfig` (no line separators, no declaration) and
/// `EventWriter`: the events written out, or the writer's error as text.
#[verifier::external_body]
fn write_svg(nodes: &Vec<SvgNode>) -> (r: Result<String, String>)
    requires
        no_document_start(nodes_view(nodes@)),
    ensures
        r is Ok <==> svg_written(nodes_view(nodes@)) is Some,
        r is Ok ==> r->Ok_0@ == svg_written(nodes_view(nodes@))->0,
{
    let mut buffer = Vec::new();
    let mut w = xml::EmitterConfig::new().line_separator("").write_document_declaration(false)
        .keep_element_names_stack(false).create_writer(&mut buffer);
    for n in nodes {
        write_node(&mut w, n)?;
    }
    String::from_utf8(buffer).map_err(|e| e.to_string())
}

fn copy_string(s: &String) -> (r: String)
    ensures
        r@ == s@,
{
    string_of(&chars_of(s.as_str()))
}

fn copy_pairs(v: &Vec<(String, String)>) -> (r: Vec<(String, String)>)
    ensures
        pairs_view(r@) == pairs_view(v@),
{
    let mut out: Vec<(String, String)> = Vec::new();
    let mut i: usize = 0;
    while i < v.len()
        invariant
            i <= v@.len(),
            pairs_view(out@) == pairs_view(v@.subrange(0, i as int)),
        decreases v.len() - i,
    {
        let (a, b) = &v[i];
        let ghost before = out@;
        let item = (copy_string(a), copy_string(b));
        out.push(item);
        proof {
            assert(pairs_view(v@.subrange(0, i + 1)) =~= pairs_view(v@.subrange(0, i as int)).push((a@, b@)));
            assert(pairs_view(out@) =~= pairs_view(before).push((a@, b@)));
        }
        i = i + 1;
        assert(pairs_view(out@) =~= pairs_view(v@.subrange(0, i as int)));
    }
    assert(v@.subrange(0, v@.len() as int) =~= v@);
    out
}

fn rewrite_node(n: &SvgNode, ids: &Vec<Vec<char>>, prefix: &str) -> (r: SvgNode)
    ensures
        node_view(r) == rewritten_node(node_view(*n), chars_view(ids@), prefix@),
{
    match n {
        SvgNode::DocumentStart => SvgNode::DocumentStart,
        SvgNode::Start { name, attributes, namespace } => SvgNode::Start {
            name: copy_string(name),
            attributes: rewritten_attributes(attributes, ids, prefix),
            namespace: copy_pairs(namespace),
        },
        SvgNode::End { name } => SvgNode::End { name: copy_string(name) },
        SvgNode::Text { kind, text } => SvgNode::Text { kind: *kind, text: rewritten_text(text.as_str(), ids, prefix) },
        SvgNode::Instruction { name, data } => SvgNode::Instruction {
            name: copy_string(name),
            data: match data {
                Some(d) => Some(copy_string(d)),
                None => None,
            },
        },
        SvgNode::DocumentEnd => SvgNode::DocumentEnd,
    }
}

/// Prefixes every element id of an SVG with `id_prefix` and rewrites the references
/// to them, or says why the SVG could not be read or written.
pub fn format_for_inline_advanced(output: &str, id_prefix: &str) -> (r: Result<String, String>)
    ensures
        r is Ok <==> rewritten_svg(output@, id_prefix@) is Some,
        r is Ok ==> r->Ok_0@ == rewritten_svg(output@, id_prefix@)->0,
        svg_nodes(output@) is None ==> r is Err && r->Err_0@.len() >= 19 && r->Err_0@.subrange(0, 19)
            == "Error parsing SVG: "@,
        svg_nodes(output@) is Some && r is Err ==> r->Err_0@.len() >= 19 && r->Err_0@.subrange(0, 19)
            == "Error writing SVG: "@,
{
    proof {
        reveal_strlit("Error parsing SVG: ");
        reveal_strlit("Error writing SVG: ");
    }
    let nodes = match parse_svg(output) {
        Ok(nodes) => nodes,
        Err(e) => {
            let mut m: Vec<char> = Vec::new();
            push_str(&mut m, "Error parsing SVG: ");
            push_str(&mut m, e.as_str());
            assert(m@.subrange(0, 19) =~= "Error parsing SVG: "@);
            return Err(string_of(&m));
        },
    };
    let ghost nv = nodes_view(nodes@);
    let mut ids: Vec<Vec<char>> = Vec::new();
    let mut i: usize = 0;
    while i < nodes.len()
        invariant
            i <= nodes@.len(),
            nv == nodes_view(nodes@),
            chars_view(ids@) == document_ids(nv.subrange(0, i as int)),
        decreases nodes.len() - i,
    {
        let ghost sub = nv.subrange(0, i + 1);
        assert(sub.drop_last() =~= nv.subrange(0, i as int));
        assert(sub.last() == node_view(nodes@[i as int]));
        let ghost prev = chars_view(ids@);
        match &nodes[i] {
            SvgNode::Start { attributes, .. } => collect_ids(attributes, &mut ids),
            _ => {},
        }
        i = i + 1;
        assert(chars_view(ids@) =~= document_ids(nv.subrange(0, i as int)));
    }
    assert(nv.subrange(0, nv.len() as int) =~= nv);
    let mut out: Vec<SvgNode> = Vec::new();
    let mut j: usize = 0;
    while j < nodes.len()
        invariant
            j <= nodes@.len(),
            nv == nodes_view(nodes@),
            chars_view(ids@) == document_ids(nv),
            nodes_view(out@) == rewritten_nodes(nv.subrange(0, j as int), document_ids(nv), id_prefix@),
            no_document_start(nodes_view(out@)),
        decreases nodes.len() - j,
    {
        let ghost sub = nv.subrange(0, j + 1);
        assert(sub.drop_last() =~= nv.subrange(0, j as int));
        assert(sub.last() == node_view(nodes@[j as int]));
        match &nodes[j] {
            SvgNode::DocumentStart => {},
            n => {
                let r = rewrite_node(n, &ids, id_prefix);
                out.push(r);
                assert(nodes_view(out@) =~= rewritten_nodes(nv.subrange(0, j as int), document_ids(nv), id_prefix@).push(
                    node_view(r),
                ));
            },
        }
        j = j + 1;
        assert(nodes_view(out@) =~= rewritten_nodes(nv.subrange(0, j as int), document_ids(nv), id_prefix@));
    }
    match write_svg(&out) {
        Ok(s) => Ok(s),
        Err(e) => {
            let mut m: Vec<char> = Vec::new();
            push_str(&mut m, "Error writing SVG: ");
            push_str(&mut m, e.as_str());
            assert(m@.subrange(0, 19) =~= "Error writing SVG: "@);
            Err(string_of(&m))
        },
    }
}

/// An SVG ready to be inlined: ids prefixed when it can be read and written, the
/// textual clean-up otherwise; with the reason the rewrite failed, to be reported.
pub fn format_for_inline(output: &str, id_prefix: &str) -> (r: (String, Option<String>))
    ensures
        r.0@ == inline_svg(output@, id_prefix@),
        r.1 is Some <==> rewritten_svg(output@, id_prefix@) is None,
{
    match format_for_inline_advanced(output, id_prefix) {
        Ok(s) => (s, None),
        Err(e) => (format_for_inline_simple(output), Some(e)),
    }
}

} // verus!
