//! The LSX document model a mod's banks are read into (the XML form of the game's resource files):
//! regions of nodes, each node with its attributes and its children — and the few questions the
//! index asks of it.

use vstd::prelude::*;

use crate::app::opt_view;
use crate::text::{chars_of, ends_with, has_prefix, has_suffix, owned, slice_range, starts_with, str_eq, string_of};
use vstd::utf8::{decode_utf8, valid_utf8};

verus! {

/// One attribute of a node: its id and its value as the file states it
#[derive(Debug)]
pub struct LsxAttribute {
    pub id: String,
    pub value: String,
}

/// One node: its id, its attributes, and the nodes below it
#[derive(Debug)]
pub struct LsxElement {
    pub id: String,
    pub attributes: Vec<LsxAttribute>,
    pub children: Vec<LsxElement>,
}

/// One region of a document (`VisualBank`, `MaterialBank`, `Config`, …)
#[derive(Debug)]
pub struct LsxRegion {
    pub id: String,
    pub nodes: Vec<LsxElement>,
}

/// A whole document
#[derive(Debug)]
pub struct LsxDocument {
    pub regions: Vec<LsxRegion>,
}

/// The value of the first attribute `id` among `attrs`; empty when none carries that id
pub open spec fn attr_spec(attrs: Seq<LsxAttribute>, id: Seq<char>) -> Seq<char>
    decreases attrs.len(),
{
    if attrs.len() == 0 {
        Seq::empty()
    } else if attrs[0].id@ == id {
        attrs[0].value@
    } else {
        attr_spec(attrs.drop_first(), id)
    }
}

/// Value of one attribute of a node; a node that does not carry it yields an empty string, which is
/// what every caller tests against
pub fn attr(node: &LsxElement, id: &str) -> (r: String)
    ensures
        r@ == attr_spec(node.attributes@, id@),
{
    let mut i: usize = 0;
    assert(node.attributes@.skip(0) =~= node.attributes@);
    while i < node.attributes.len()
        invariant
            i <= node.attributes@.len(),
            attr_spec(node.attributes@.skip(i as int), id@) == attr_spec(node.attributes@, id@),
        decreases node.attributes@.len() - i,
    {
        let a = &node.attributes[i];
        assert(node.attributes@.skip(i as int)[0] == node.attributes@[i as int]);
        assert(node.attributes@.skip(i as int).drop_first() =~= node.attributes@.skip(i + 1));
        if str_eq(a.id.as_str(), id) {
            return a.value.clone();
        }
        i = i + 1;
    }
    String::new()
}

/// The nodes of `nodes` named `id`, in order
pub open spec fn named(nodes: Seq<LsxElement>, id: Seq<char>) -> Seq<LsxElement>
    decreases nodes.len(),
{
    if nodes.len() == 0 {
        Seq::empty()
    } else {
        named(nodes.drop_last(), id) + if nodes.last().id@ == id {
            seq![nodes.last()]
        } else {
            Seq::empty()
        }
    }
}

/// The `Resource` nodes of a bank region: nested under a node named after the bank, or listed
/// directly
pub open spec fn resources_of(nodes: Seq<LsxElement>, bank: Seq<char>) -> Seq<LsxElement>
    decreases nodes.len(),
{
    if nodes.len() == 0 {
        Seq::empty()
    } else {
        resources_of(nodes.drop_last(), bank) + if nodes.last().id@ == bank {
            named(nodes.last().children@, "Resource"@)
        } else if nodes.last().id@ == "Resource"@ {
            seq![nodes.last()]
        } else {
            Seq::empty()
        }
    }
}

/// The nodes of `nodes` named `id`, as references
fn named_refs<'a>(nodes: &'a Vec<LsxElement>, id: &str) -> (r: Vec<&'a LsxElement>)
    ensures
        r@.map_values(|n: &LsxElement| *n) == named(nodes@, id@),
{
    let mut r: Vec<&LsxElement> = Vec::new();
    let mut i: usize = 0;
    while i < nodes.len()
        invariant
            i <= nodes@.len(),
            r@.map_values(|n: &LsxElement| *n) == named(nodes@.take(i as int), id@),
        decreases nodes@.len() - i,
    {
        let ghost prev = r@.map_values(|n: &LsxElement| *n);
        assert(nodes@.take(i + 1).drop_last() =~= nodes@.take(i as int));
        if str_eq(nodes[i].id.as_str(), id) {
            r.push(&nodes[i]);
            assert(r@.map_values(|n: &LsxElement| *n) =~= prev + seq![nodes@[i as int]]);
        } else {
            assert(r@.map_values(|n: &LsxElement| *n) =~= prev + Seq::<LsxElement>::empty());
        }
        i = i + 1;
    }
    assert(nodes@.take(nodes@.len() as int) =~= nodes@);
    r
}

/// The `Resource` nodes of a bank region: a per-resource bank file nests them under a node named
/// after the bank (`VisualBank` → `Resource`), the shape of a merged file, and a region listing them
/// directly is accepted as well
pub fn resource_nodes<'a>(region: &'a LsxRegion, bank: &str) -> (r: Vec<&'a LsxElement>)
    ensures
        r@.map_values(|n: &LsxElement| *n) == resources_of(region.nodes@, bank@),
{
    proof {
        reveal_strlit("Resource");
    }
    let ghost nodes = region.nodes@;
    let mut r: Vec<&LsxElement> = Vec::new();
    let mut i: usize = 0;
    while i < region.nodes.len()
        invariant
            i <= nodes.len(),
            nodes == region.nodes@,
            r@.map_values(|n: &LsxElement| *n) == resources_of(nodes.take(i as int), bank@),
        decreases nodes.len() - i,
    {
        let node = &region.nodes[i];
        let ghost prev = r@.map_values(|n: &LsxElement| *n);
        assert(nodes.take(i + 1).drop_last() =~= nodes.take(i as int));
        if str_eq(node.id.as_str(), bank) {
            let mut found = named_refs(&node.children, "Resource");
            r.append(&mut found);
            assert(r@.map_values(|n: &LsxElement| *n) =~= prev + named(node.children@, "Resource"@));
        } else if str_eq(node.id.as_str(), "Resource") {
            r.push(node);
            assert(r@.map_values(|n: &LsxElement| *n) =~= prev + seq![*node]);
        } else {
            assert(r@.map_values(|n: &LsxElement| *n) =~= prev + Seq::<LsxElement>::empty());
        }
        i = i + 1;
    }
    assert(nodes.take(nodes.len() as int) =~= nodes);
    r
}

// ---------------------------------------------------------------------------------------------
// XML entities
// ---------------------------------------------------------------------------------------------

/// `s` with every occurrence of `from` replaced by `to`, left to right and without overlaps
/// (`str::replace`)
pub open spec fn replace_all(s: Seq<char>, from: Seq<char>, to: Seq<char>) -> Seq<char>
    decreases s.len(),
{
    if from.len() == 0 || s.len() == 0 {
        s
    } else if has_prefix(s, from) {
        to + replace_all(s.skip(from.len() as int), from, to)
    } else {
        seq![s[0]] + replace_all(s.drop_first(), from, to)
    }
}

/// `str::replace` of a non-empty pattern
pub fn replace(s: &[char], from: &[char], to: &[char]) -> (r: Vec<char>)
    requires
        from@.len() > 0,
    ensures
        r@ == replace_all(s@, from@, to@),
{
    let mut out: Vec<char> = Vec::new();
    let mut i: usize = 0;
    assert(s@.skip(0) =~= s@);
    while i < s.len()
        invariant
            from@.len() > 0,
            i <= s@.len(),
            out@ + replace_all(s@.skip(i as int), from@, to@) == replace_all(s@, from@, to@),
        decreases s@.len() - i,
    {
        let rest = slice_range(s, i, s.len());
        assert(rest@ =~= s@.skip(i as int));
        if starts_with(rest.as_slice(), from) {
            let ghost before = out@;
            let mut k: usize = 0;
            while k < to.len()
                invariant
                    k <= to@.len(),
                    out@ == before + to@.take(k as int),
                decreases to@.len() - k,
            {
                out.push(to[k]);
                k = k + 1;
                assert(before + to@.take(k as int) =~= (before + to@.take(k - 1)).push(to@[k - 1]));
            }
            assert(to@.take(to@.len() as int) =~= to@);
            assert(s@.skip(i as int).skip(from@.len() as int) =~= s@.skip(i + from@.len()));
            assert(before + (to@ + replace_all(s@.skip(i + from@.len()), from@, to@)) =~= out@ + replace_all(
                s@.skip(i + from@.len()),
                from@,
                to@,
            ));
            i = i + from.len();
        } else {
            let ghost before = out@;
            out.push(s[i]);
            assert(s@.skip(i as int).drop_first() =~= s@.skip(i + 1));
            assert(s@.skip(i as int)[0] == s@[i as int]);
            assert(before + (seq![s@[i as int]] + replace_all(s@.skip(i + 1), from@, to@)) =~= out@ + replace_all(
                s@.skip(i + 1),
                from@,
                to@,
            ));
            i = i + 1;
        }
    }
    assert(s@.skip(s@.len() as int) =~= Seq::<char>::empty());
    assert(out@ + Seq::<char>::empty() =~= out@);
    out
}

/// The entities a mod name may carry, decoded; `&amp;` last, so that an escaped entity survives as
/// the text it stands for
pub open spec fn decoded(value: Seq<char>) -> Seq<char> {
    if !value.contains('&') {
        value
    } else {
        replace_all(
            replace_all(
                replace_all(
                    replace_all(replace_all(value, "&lt;"@, "<"@), "&gt;"@, ">"@),
                    "&quot;"@,
                    "\""@,
                ),
                "&apos;"@,
                "'"@,
            ),
            "&amp;"@,
            "&"@,
        )
    }
}

/// Whether `c` occurs in `v`
fn has_char(v: &[char], c: char) -> (r: bool)
    ensures
        r == v@.contains(c),
{
    let mut i: usize = 0;
    while i < v.len()
        invariant
            i <= v@.len(),
            forall|j: int| 0 <= j < i ==> v@[j] != c,
        decreases v@.len() - i,
    {
        if v[i] == c {
            assert(v@[i as int] == c);
            return true;
        }
        i = i + 1;
    }
    false
}

/// One replacement step of the decoding
fn replace_str(v: Vec<char>, from: &str, to: &str) -> (r: Vec<char>)
    requires
        from@.len() > 0,
    ensures
        r@ == replace_all(v@, from@, to@),
{
    let f = chars_of(from);
    let t = chars_of(to);
    replace(v.as_slice(), f.as_slice(), t.as_slice())
}

/// XML entities decoded in a value read out of an attribute: the LSX reader hands the text over as
/// it stands in the file, and mod names do use escapes (`PixellBytes&apos; Adjustable Party
/// Limit`), which would otherwise reach the UI as markup
pub fn decode_entities(value: &str) -> (r: String)
    ensures
        r@ == decoded(value@),
{
    let chars = chars_of(value);
    if !has_char(chars.as_slice(), '&') {
        return owned(value);
    }
    proof {
        reveal_strlit("&lt;");
        reveal_strlit("&gt;");
        reveal_strlit("&quot;");
        reveal_strlit("&apos;");
        reveal_strlit("&amp;");
    }
    let a = replace_str(chars, "&lt;", "<");
    let b = replace_str(a, "&gt;", ">");
    let c = replace_str(b, "&quot;", "\"");
    let d = replace_str(c, "&apos;", "'");
    let e = replace_str(d, "&amp;", "&");
    string_of(e.as_slice())
}

// ---------------------------------------------------------------------------------------------
// The module's own name
// ---------------------------------------------------------------------------------------------

/// The decoded `Name` of the first `ModuleInfo` node that carries one, depth first from `node`
pub open spec fn module_name_spec(node: LsxElement) -> Option<Seq<char>>
    decreases node, 0int,
{
    if node.id@ == "ModuleInfo"@ && attr_spec(node.attributes@, "Name"@).len() > 0 {
        Some(decoded(attr_spec(node.attributes@, "Name"@)))
    } else {
        first_module_name(node.children@, 0)
    }
}

/// The first module name found among `nodes`, from position `i` on
pub open spec fn first_module_name(nodes: Seq<LsxElement>, i: int) -> Option<Seq<char>>
    decreases nodes, nodes.len() - i,
{
    if i < 0 || i >= nodes.len() {
        None
    } else {
        match module_name_spec(nodes[i]) {
            Some(name) => Some(name),
            None => first_module_name(nodes, i + 1),
        }
    }
}

/// The `Name` attribute of the first `ModuleInfo` node in the tree. The declaration sits one level
/// down (`Root > Config > ModuleInfo`), but the depth is not part of the format, so the walk simply
/// descends until it finds the node.
pub fn module_name(node: &LsxElement) -> (r: Option<String>)
    ensures
        opt_view(r) == module_name_spec(*node),
    decreases node, 0int,
{
    if str_eq(node.id.as_str(), "ModuleInfo") {
        let name = attr(node, "Name");
        if !crate::text::is_empty_str(name.as_str()) {
            return Some(decode_entities(name.as_str()));
        }
    }
    first_module_name_from(&node.children, 0)
}

/// The first module name found among `nodes`, from position `i` on
fn first_module_name_from(nodes: &Vec<LsxElement>, i: usize) -> (r: Option<String>)
    ensures
        opt_view(r) == first_module_name(nodes@, i as int),
    decreases nodes@, nodes@.len() - i,
{
    if i >= nodes.len() {
        return None;
    }
    match module_name(&nodes[i]) {
        Some(name) => Some(name),
        None => first_module_name_from(nodes, i + 1),
    }
}

// ---------------------------------------------------------------------------------------------
// Reading a bank file's bytes into a document
// ---------------------------------------------------------------------------------------------

/// `maclarian::formats::lsx::LsxNode`, the node type of maclarian's own LSX tree
#[verifier::external_type_specification]
#[verifier::external_body]
pub struct ExMaclarianLsxNode(maclarian::formats::lsx::LsxNode);

/// One node of maclarian's LSX tree in this crate's model, field for field and recursively: its id,
/// the id and value of each attribute, and its children. Nothing is stated of it here; the
/// document it is part of is named by `parse_lsx_document`, its one caller.
#[verifier::external_body]
fn node_of(node: &maclarian::formats::lsx::LsxNode) -> LsxElement {
    LsxElement {
        id: node.id.clone(),
        attributes: node.attributes.iter().map(|a| LsxAttribute { id: a.id.clone(), value: a.value.clone() }).collect(),
        children: node.children.iter().map(node_of).collect(),
    }
}

/// What maclarian's LSX reader makes of a document's text: its regions in order, each node with
/// its id, the id and value of each of its attributes, and its children; `None` for text it does
/// not accept
pub uninterp spec fn lsx_document(xml: Seq<char>) -> Option<LsxDocument>;

/// `maclarian::formats::lsx::parse_lsx`, the tree carried over into this crate's model (the version
/// numbers, node keys, attribute types and translation handles, which the index never reads, stay
/// behind). Nothing is claimed of the document beyond that it is a function of the text.
#[verifier::external_body]
fn parse_lsx_document(xml: &str) -> (r: Option<LsxDocument>)
    ensures
        r == lsx_document(xml@),
{
    let doc = maclarian::formats::lsx::parse_lsx(xml).ok()?;
    Some(LsxDocument {
        regions: doc.regions.iter().map(|region| LsxRegion { id: region.id.clone(), nodes: region.nodes.iter().map(node_of).collect() }).collect(),
    })
}

/// `String::from_utf8`: the text the bytes encode when they are valid UTF-8, and `None` when they
/// are not
#[verifier::external_body]
fn utf8_text(bytes: &[u8]) -> (r: Option<String>)
    ensures
        match r {
            Some(s) => valid_utf8(bytes@) && s@ == decode_utf8(bytes@),
            None => !valid_utf8(bytes@),
        },
{
    String::from_utf8(bytes.to_vec()).ok()
}

/// Whether the bank file named `path` is a text (`.lsx`) bank; any other bank is binary (`.lsf`)
pub open spec fn is_text_bank_spec(path: Seq<char>) -> bool {
    has_suffix(path, ".lsx"@)
}

/// Whether the bank file named `path` is a text (`.lsx`) bank. A binary bank is read by maclarian's
/// LSF reader and converted to LSX text by its converter before it is parsed, which the caller
/// runs: that reader trusts the indices a file holds as they stand, and the caller keeps what it
/// does with a malformed file from taking the app down.
pub fn is_text_bank(path: &str) -> (r: bool)
    ensures
        r == is_text_bank_spec(path@),
{
    let name = chars_of(path);
    let lsx = chars_of(".lsx");
    proof {
        reveal_strlit(".lsx");
    }
    ends_with(name.as_slice(), lsx.as_slice())
}

/// The XML of a bank file named `path` holding `bytes`: a text bank is its own text (when that
/// text is UTF-8); a binary bank's XML is `binary_xml`, what the LSF reader and converter gave for
/// it (`None` when they failed)
pub open spec fn bank_text(path: Seq<char>, bytes: Seq<u8>, binary_xml: Option<Seq<char>>) -> Option<Seq<char>> {
    if is_text_bank_spec(path) {
        if valid_utf8(bytes) {
            Some(decode_utf8(bytes))
        } else {
            None
        }
    } else {
        binary_xml
    }
}

/// The document a bank file parses into; `None` when any step fails
pub open spec fn bank_document(path: Seq<char>, bytes: Seq<u8>, binary_xml: Option<Seq<char>>) -> Option<LsxDocument> {
    match bank_text(path, bytes, binary_xml) {
        Some(xml) => lsx_document(xml),
        None => None,
    }
}

/// The XML of one bank file, or `None` when its own format cannot be read: a `.lsx` bank is XML
/// already, a `.lsf` bank's XML is what the LSF reader and converter gave for it
pub fn bank_xml(path: &str, bytes: &[u8], binary_xml: Option<String>) -> (r: Option<String>)
    ensures
        opt_view(r) == bank_text(path@, bytes@, opt_view(binary_xml)),
{
    if is_text_bank(path) {
        utf8_text(bytes)
    } else {
        binary_xml
    }
}

/// Parse one bank file into an LSX document; a file that fails any step yields `None`, leaving the
/// mod's other banks unaffected
pub fn parse_bank(path: &str, bytes: &[u8], binary_xml: Option<String>) -> (r: Option<LsxDocument>)
    ensures
        r == bank_document(path@, bytes@, opt_view(binary_xml)),
{
    match bank_xml(path, bytes, binary_xml) {
        Some(xml) => parse_lsx_document(xml.as_str()),
        None => None,
    }
}

} // verus!
