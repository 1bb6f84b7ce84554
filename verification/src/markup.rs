//! The runtime markup parser: turns inline-tagged line text into plain text
//! plus an ordered attribute list.
//!
//! Grammar: `[name prop=value ...]` opens a tag, `[/name]` closes the most
//! recently opened tag of that name, `[name/]` is self-closing, and `[/]`
//! closes every open tag.  A property value is a quoted string, an integer, a
//! decimal number, `true` or `false`, or a bare word (kept as a string).  A
//! decimal value is kept as its spelled-out text for the host to interpret.
//! Malformed markup is recoverable: the offending bracketed text is kept as
//! literal characters.  Tags left open at the end of the line are closed
//! there.

use vstd::prelude::*;

verus! {

use crate::diagnostic::{Diagnostic, DiagnosticSeverity};
use crate::util::str_eq;

/// A value associated with a markup property.
#[derive(Debug, PartialEq, Eq)]
pub enum MarkupValue {
    Integer(i64),
    /// A decimal number, kept as its source text.
    Float(String),
    String(String),
    Bool(bool),
}

impl Clone for MarkupValue {
    /// Cloning preserves the value exactly.
    fn clone(&self) -> (r: Self)
        ensures
            r == *self,
    {
        match self {
            MarkupValue::Integer(n) => MarkupValue::Integer(*n),
            MarkupValue::Float(s) => MarkupValue::Float(s.clone()),
            MarkupValue::String(s) => MarkupValue::String(s.clone()),
            MarkupValue::Bool(b) => MarkupValue::Bool(*b),
        }
    }
}

/// A named property of a markup attribute.
#[derive(Debug, PartialEq, Eq)]
pub struct MarkupProperty {
    pub name: String,
    pub value: MarkupValue,
}

impl Clone for MarkupProperty {
    /// Cloning preserves the property exactly.
    fn clone(&self) -> (r: Self)
        ensures
            r == *self,
    {
        MarkupProperty { name: self.name.clone(), value: self.value.clone() }
    }
}

/// The first value bound to a property name, if any.
pub open spec fn get_property_spec(props: Seq<MarkupProperty>, name: Seq<char>) -> Option<
    MarkupValue,
>
    decreases props.len(),
{
    if props.len() == 0 {
        None
    } else if props[0].name@ == name {
        Some(props[0].value)
    } else {
        get_property_spec(props.subrange(1, props.len() as int), name)
    }
}

/// What kind of marker a tag was.
#[derive(Debug, Clone, Copy, PartialEq, Eq, Structural)]
pub enum TagType {
    /// An open marker. For example, `[a]`.
    Open,
    /// A closing marker. For example, `[/a]`.
    Close,
    /// A self-closing marker. For example, `[a/]`.
    SelfClosing,
    /// The close-all marker, `[/]`.
    CloseAll,
}

/// An open tag awaiting its close: where it started in the plain text and in
/// the source text, and the properties it carries.
#[derive(Debug)]
pub struct MarkupAttributeMarker {
    pub name: String,
    /// Offset in the emitted plain text.
    pub position: usize,
    /// Offset in the original source text.
    pub source_position: usize,
    pub properties: Vec<MarkupProperty>,
    pub marker_type: TagType,
}

impl MarkupAttributeMarker {
    /// The first value bound to a property name, if any.
    pub fn get_property(&self, name: &str) -> (r: Option<&MarkupValue>)
        ensures
            match r {
                Some(v) => get_property_spec(self.properties@, name@) == Some(*v),
                None => get_property_spec(self.properties@, name@) is None,
            },
    {
        let n = self.properties.len();
        proof {
            assert(self.properties@.subrange(0, n as int) =~= self.properties@);
        }
        let mut i: usize = 0;
        while i < n
            invariant
                n == self.properties@.len(),
                i <= n,
                get_property_spec(self.properties@, name@) == get_property_spec(
                    self.properties@.subrange(i as int, n as int),
                    name@,
                ),
            decreases n - i,
        {
            let ghost tail = self.properties@.subrange(i as int, n as int);
            proof {
                assert(tail[0] == self.properties@[i as int]);
                assert(tail.subrange(1, tail.len() as int) =~= self.properties@.subrange(
                    i + 1,
                    n as int,
                ));
            }
            if str_eq(self.properties[i].name.as_str(), name) {
                return Some(&self.properties[i].value);
            }
            i += 1;
        }
        None
    }
}

/// A tagged attribute over a span of the plain text: its name, its offset in
/// the plain text and in the source text (the two diverge once earlier tags
/// have been removed), the length of the spanned plain text, and its
/// properties.
#[derive(Debug, PartialEq, Eq)]
pub struct MarkupAttribute {
    pub name: String,
    /// Offset in the emitted plain text.
    pub position: usize,
    /// Offset in the original source text.
    pub source_position: usize,
    /// Number of plain-text characters the attribute spans.
    pub length: usize,
    pub properties: Vec<MarkupProperty>,
}

/// The replacement text registered for a marker name, if any.
pub open spec fn replacement_for(reps: Seq<(String, String)>, name: Seq<char>) -> Option<Seq<char>>
    decreases reps.len(),
{
    if reps.len() == 0 {
        None
    } else if reps[0].0@ == name {
        Some(reps[0].1@)
    } else {
        replacement_for(reps.subrange(1, reps.len() as int), name)
    }
}

/// Looks a marker name up among the registered replacements.
fn lookup_replacement(reps: &Vec<(String, String)>, name: &str) -> (r: Option<String>)
    ensures
        r is Some <==> replacement_for(reps@, name@) is Some,
        r matches Some(t) ==> replacement_for(reps@, name@) == Some(t@),
{
    let n = reps.len();
    proof {
        assert(reps@.subrange(0, n as int) =~= reps@);
    }
    let mut i: usize = 0;
    while i < n
        invariant
            n == reps@.len(),
            i <= n,
            replacement_for(reps@, name@) == replacement_for(
                reps@.subrange(i as int, n as int),
                name@,
            ),
        decreases n - i,
    {
        let ghost tail = reps@.subrange(i as int, n as int);
        proof {
            assert(tail[0] == reps@[i as int]);
            assert(tail.subrange(1, tail.len() as int) =~= reps@.subrange(i + 1, n as int));
        }
        if str_eq(reps[i].0.as_str(), name) {
            return Some(reps[i].1.clone());
        }
        i += 1;
    }
    None
}

/// The outcome of parsing one line of tagged text.
#[derive(Debug)]
pub struct MarkupParseResult {
    /// The text with all well-formed markers removed.
    pub text: String,
    /// The attributes described by the markers, in the order they closed.
    pub attributes: Vec<MarkupAttribute>,
    /// Recoverable findings: one `Warning` for each malformed, unmatched or
    /// unterminated marker that was kept as literal text.
    pub diagnostics: Vec<Diagnostic>,
}

/// A character sequence free of markers.
pub open spec fn plain_seq(s: Seq<char>) -> bool {
    forall|i: int| 0 <= i < s.len() ==> s[i] != '['
}

/// A nonempty run of word characters.
pub open spec fn word_seq(s: Seq<char>) -> bool {
    s.len() > 0 && forall|i: int| 0 <= i < s.len() ==> is_word_char_spec(#[trigger] s[i])
}

/// Whether the input is exactly one matched, propertyless tag pair around
/// marker-free text, followed by marker-free text.
pub open spec fn simple_tag_input(
    inp: Seq<char>,
    name: Seq<char>,
    body: Seq<char>,
    tail: Seq<char>,
) -> bool {
    &&& word_seq(name)
    &&& plain_seq(body)
    &&& plain_seq(tail)
    &&& inp == seq!['['] + name + seq![']'] + body + seq!['[', '/'] + name + seq![']'] + tail
}

/// The characters such an input holds at each position.
proof fn lemma_simple_tag_chars(inp: Seq<char>, name: Seq<char>, body: Seq<char>, tail: Seq<char>)
    requires
        simple_tag_input(inp, name, body, tail),
    ensures
        inp.len() == 5 + name.len() + body.len() + name.len() + tail.len(),
        inp[0] == '[',
        forall|k: int| 0 <= k < name.len() ==> inp[1 + k] == name[k],
        inp[1 + name.len() as int] == ']',
        forall|k: int| 0 <= k < body.len() ==> inp[2 + name.len() as int + k] == body[k],
        inp[2 + name.len() as int + body.len() as int] == '[',
        inp[3 + name.len() as int + body.len() as int] == '/',
        forall|k: int| 0 <= k < name.len() ==> inp[4 + name.len() as int + body.len() as int + k] == name[k],
        inp[4 + name.len() as int + body.len() as int + name.len() as int] == ']',
        forall|k: int| 0 <= k < tail.len() ==> inp[5 + name.len() as int + body.len() as int
            + name.len() as int + k] == tail[k],
{
}

/// Such a decomposition is unique: the name ends at the first `']'` and the
/// body at the first later `'['`.
proof fn lemma_simple_tag_unique(
    inp: Seq<char>,
    n1: Seq<char>,
    b1: Seq<char>,
    t1: Seq<char>,
    n2: Seq<char>,
    b2: Seq<char>,
    t2: Seq<char>,
)
    requires
        simple_tag_input(inp, n1, b1, t1),
        simple_tag_input(inp, n2, b2, t2),
    ensures
        n1 == n2,
        b1 == b2,
        t1 == t2,
{
    lemma_simple_tag_chars(inp, n1, b1, t1);
    lemma_simple_tag_chars(inp, n2, b2, t2);
    if n1.len() < n2.len() {
        assert(inp[1 + n1.len() as int] == ']');
        assert(inp[1 + n1.len() as int] == n2[n1.len() as int]);
        assert(is_word_char_spec(']') == false);
        assert(false);
    }
    if n2.len() < n1.len() {
        assert(inp[1 + n2.len() as int] == ']');
        assert(inp[1 + n2.len() as int] == n1[n2.len() as int]);
        assert(false);
    }
    assert(n1 =~= n2);
    if b1.len() < b2.len() {
        assert(inp[2 + n1.len() as int + b1.len() as int] == '[');
        assert(inp[2 + n2.len() as int + b1.len() as int] == b2[b1.len() as int]);
        assert(false);
    }
    if b2.len() < b1.len() {
        assert(inp[2 + n2.len() as int + b2.len() as int] == '[');
        assert(inp[2 + n1.len() as int + b2.len() as int] == b1[b2.len() as int]);
        assert(false);
    }
    assert forall|k: int| 0 <= k < b1.len() implies b1[k] == b2[k] by {
        assert(inp[2 + n1.len() as int + k] == b1[k]);
        assert(inp[2 + n2.len() as int + k] == b2[k]);
    }
    assert(b1 =~= b2);
    assert(t1.len() == t2.len());
    assert forall|k: int| 0 <= k < t1.len() implies t1[k] == t2[k] by {
        assert(inp[5 + n1.len() as int + b1.len() as int + n1.len() as int + k] == t1[k]);
        assert(inp[5 + n2.len() as int + b2.len() as int + n2.len() as int + k] == t2[k]);
    }
    assert(t1 =~= t2);
}

/// Every attribute's span lies within the plain text.
pub open spec fn attrs_within(attrs: Seq<MarkupAttribute>, len: nat) -> bool {
    forall|i: int| 0 <= i < attrs.len() ==> (#[trigger] attrs[i]).position + attrs[i].length <= len
}

/// What one tag's bracketed content means.
#[derive(Debug)]
pub(crate) enum TagAction {
    OpenTag { name: String, properties: Vec<MarkupProperty> },
    SelfCloseTag { name: String, properties: Vec<MarkupProperty> },
    CloseTag { name: String },
    CloseAllTags,
    Malformed,
}

/// Parses inline-tagged line text into plain text plus an ordered attribute
/// list, splicing registered replacement text in place of any self-closing
/// marker whose name is registered (the tag-processor capability: the
/// marker's attribute then spans the spliced text, so its plain-text and
/// source positions diverge).  Text without `'['` passes through unchanged
/// and yields no attributes; a close-all marker with no open tags is a
/// no-op, so `"[/]"` alone yields the empty result.
#[verifier::rlimit(100)]
pub fn parse_markup_with_replacements(
    input: &str,
    replacements: &Vec<(String, String)>,
) -> (r: MarkupParseResult)
    ensures
        !input@.contains('[') ==> r.text@ == input@ && r.attributes@.len() == 0
            && r.diagnostics@.len() == 0,
        attrs_within(r.attributes@, r.text@.len()),
        forall|i: int| 0 <= i < r.diagnostics@.len() ==> (#[trigger] r.diagnostics@[i]).severity
            == DiagnosticSeverity::Warning,
        input@ == "[/]"@ ==> r.text@.len() == 0 && r.attributes@.len() == 0
            && r.diagnostics@.len() == 0,
        forall|name: Seq<char>, body: Seq<char>, tail: Seq<char>|
            #[trigger] simple_tag_input(input@, name, body, tail) ==> {
                &&& r.text@ == body + tail
                &&& r.attributes@.len() == 1
                &&& r.attributes@[0].name@ == name
                &&& r.attributes@[0].position == 0
                &&& r.attributes@[0].length == body.len()
                &&& r.diagnostics@.len() == 0
            },
{
    proof {
        reveal_strlit("[/]");
    }
    let ghost shaped = exists|nm: Seq<char>, bd: Seq<char>, tl: Seq<char>|
        simple_tag_input(input@, nm, bd, tl);
    let ghost (sname, sbody, stail) = choose|nm: Seq<char>, bd: Seq<char>, tl: Seq<char>|
        simple_tag_input(input@, nm, bd, tl);
    let ghost oe = 2 + sname.len() as int;
    let ghost cs = oe + sbody.len() as int;
    let ghost ce = cs + 3 + sname.len() as int;
    let chars = crate::util::chars_of(input);
    let n = chars.len();
    let mut plain = String::new();
    let mut plain_len: usize = 0;
    let mut stack: Vec<MarkupAttributeMarker> = Vec::new();
    let mut attrs: Vec<MarkupAttribute> = Vec::new();
    let mut diagnostics: Vec<Diagnostic> = Vec::new();
    let mut i: usize = 0;
    while i < n
        invariant
            n == chars@.len(),
            chars@ == input@,
            i <= n,
            plain@.len() == plain_len,
            !input@.contains('[') ==> plain@ == input@.subrange(0, i as int)
                && attrs@.len() == 0 && diagnostics@.len() == 0,
            input@ == "[/]"@ ==> (i == 0 || i == n) && plain_len == 0 && stack@.len() == 0
                && attrs@.len() == 0 && diagnostics@.len() == 0,
            shaped ==> simple_tag_input(input@, sname, sbody, stail) && oe == 2
                + sname.len() as int && cs == oe + sbody.len() as int && ce == cs + 3
                + sname.len() as int && ce <= n,
            shaped ==> diagnostics@.len() == 0 && ((i == 0 && plain_len == 0 && stack@.len() == 0
                && attrs@.len() == 0) || (oe <= i as int && (i as int) <= cs && plain@ == sbody.subrange(
                0,
                i as int - oe,
            ) && stack@.len() == 1 && stack@[0].name@ == sname && stack@[0].position == 0
                && attrs@.len() == 0) || (ce <= i as int && (i as int) <= n as int && plain@ == sbody
                + stail.subrange(0, i as int - ce) && stack@.len() == 0 && attrs@.len() == 1
                && attrs@[0].name@ == sname && attrs@[0].position == 0 && attrs@[0].length
                == sbody.len())),
            forall|d: int| 0 <= d < diagnostics@.len() ==> (#[trigger] diagnostics@[d]).severity
                == DiagnosticSeverity::Warning,
            attrs_within(attrs@, plain_len as nat),
            !input@.contains('[') ==> stack@.len() == 0,
            forall|m: int| 0 <= m < stack@.len() ==> (#[trigger] stack@[m]).position <= plain_len,
        decreases n - i,
    {
        proof {
            reveal_strlit("[/]");
            if shaped {
                lemma_simple_tag_chars(input@, sname, sbody, stail);
                assert(is_word_char_spec(']') == false);
                assert(is_word_char_spec('[') == false);
            }
        }
        let c = chars[i];
        if c == '[' {
            proof {
                assert(input@[i as int] == '[');
                assert(input@.contains('['));
            }
            let mut j = i + 1;
            while j < n && chars[j] != ']'
                invariant
                    n == chars@.len(),
                    chars@ == input@,
                    i < j <= n,
                    forall|k: int| i < k < j ==> chars@[k] != ']',
                decreases n - j,
            {
                j += 1;
            }
            proof {
                if input@ == "[/]"@ {
                    reveal_strlit("[/]");
                    assert(chars@[1] == '/');
                    assert(chars@[2] == ']');
                    assert(j == 2);
                }
                if shaped {
                    lemma_simple_tag_chars(input@, sname, sbody, stail);
                    if i == 0 {
                        assert forall|k: int| 1 <= k < 1 + sname.len() as int implies chars@[k]
                            != ']' by {
                            assert(chars@[k] == sname[k - 1]);
                        }
                        assert(chars@[1 + sname.len() as int] == ']');
                        assert(j as int == 1 + sname.len() as int);
                        assert forall|k: int| 1 <= k < j as int implies is_word_char_spec(
                            chars@[k],
                        ) by {
                            assert(chars@[k] == sname[k - 1]);
                        }
                    }
                    if i as int == cs {
                        assert(chars@[cs + 1] == '/');
                        assert forall|k: int| cs + 2 <= k < cs + 2 + sname.len() as int implies
                            chars@[k] != ']' by {
                            assert(chars@[k] == sname[k - cs - 2]);
                        }
                        assert(chars@[cs + 2 + sname.len() as int] == ']');
                        assert(j as int == cs + 2 + sname.len() as int);
                        assert forall|k: int| cs + 2 <= k < j as int implies is_word_char_spec(
                            chars@[k],
                        ) by {
                            assert(chars@[k] == sname[k - cs - 2]);
                        }
                        assert(chars@.subrange(cs + 2, j as int) =~= sname);
                    }
                    if oe <= (i as int) && (i as int) < cs {
                        assert(chars@[i as int] == sbody[i as int - oe]);
                    }
                    if ce <= (i as int) {
                        assert(chars@[i as int] == stail[i as int - ce]);
                    }
                }
            }
            if j >= n {
                // unterminated marker: keep it as literal text
                diagnostics.push(
                    Diagnostic::new(
                        DiagnosticSeverity::Warning,
                        "Unterminated markup marker".to_owned(),
                    ),
                );
                plain.append(input.substring_char(i, n));
                plain_len = plain.as_str().unicode_len();
                i = n;
            } else {
                let action = interpret_tag(input, &chars, i + 1, j);
                match action {
                    TagAction::OpenTag { name, properties } => {
                        stack.push(
                            MarkupAttributeMarker {
                                name,
                                position: plain_len,
                                source_position: i,
                                properties,
                                marker_type: TagType::Open,
                            },
                        );
                        proof {
                            if shaped {
                                assert(i == 0);
                                assert(stack@[0].name@ == chars@.subrange(
                                    1,
                                    1 + sname.len() as int,
                                ));
                                assert(chars@.subrange(1, 1 + sname.len() as int) =~= sname);
                                assert(plain@ =~= sbody.subrange(0, 0));
                            }
                        }
                    },
                    TagAction::SelfCloseTag { name, properties } => {
                        let start = plain_len;
                        match lookup_replacement(replacements, name.as_str()) {
                            Some(replacement) => {
                                // the processor's text stands in for the marker
                                plain.append(replacement.as_str());
                                plain_len = plain.as_str().unicode_len();
                            },
                            None => {},
                        }
                        attrs.push(
                            MarkupAttribute {
                                name,
                                position: start,
                                source_position: i,
                                length: plain_len - start,
                                properties,
                            },
                        );
                    },
                    TagAction::CloseTag { name } => {
                        let matches_top = match stack.last() {
                            Some(top) => str_eq(top.name.as_str(), name.as_str()),
                            None => false,
                        };
                        if matches_top {
                            let m = stack.pop().unwrap();
                            attrs.push(
                                MarkupAttribute {
                                    name: m.name,
                                    position: m.position,
                                    source_position: m.source_position,
                                    length: plain_len - m.position,
                                    properties: m.properties,
                                },
                            );
                            proof {
                                if shaped {
                                    assert(i as int == cs);
                                    assert(plain@ == sbody.subrange(0, cs - oe));
                                    assert(sbody.subrange(0, cs - oe) =~= sbody);
                                    assert(plain_len == sbody.len());
                                    assert(attrs@[0].length == sbody.len());
                                }
                            }
                        } else {
                            // unmatched close tag: keep it as literal text
                            diagnostics.push(
                                Diagnostic::new(
                                    DiagnosticSeverity::Warning,
                                    "Unmatched closing markup tag".to_owned(),
                                ),
                            );
                            plain.append(input.substring_char(i, j + 1));
                            plain_len = plain.as_str().unicode_len();
                        }
                    },
                    TagAction::CloseAllTags => {
                        while stack.len() > 0
                            invariant
                                plain@.len() == plain_len,
                                attrs_within(attrs@, plain_len as nat),
                                input@ == "[/]"@ ==> stack@.len() == 0 && attrs@.len() == 0,
                                forall|m: int| 0 <= m < stack@.len() ==> (
                                #[trigger] stack@[m]).position <= plain_len,
                            decreases stack@.len(),
                        {
                            let m = stack.pop().unwrap();
                            attrs.push(
                                MarkupAttribute {
                                    name: m.name,
                                    position: m.position,
                                    source_position: m.source_position,
                                    length: plain_len - m.position,
                                    properties: m.properties,
                                },
                            );
                        }
                    },
                    TagAction::Malformed => {
                        // keep the offending marker as literal text
                        diagnostics.push(
                            Diagnostic::new(
                                DiagnosticSeverity::Warning,
                                "Malformed markup marker".to_owned(),
                            ),
                        );
                        plain.append(input.substring_char(i, j + 1));
                        plain_len = plain.as_str().unicode_len();
                    },
                }
                proof {
                    if shaped {
                        if i as int == cs {
                            assert(sbody + stail.subrange(0, 0) =~= sbody);
                        }
                    }
                }
                i = j + 1;
            }
        } else {
            plain.append(input.substring_char(i, i + 1));
            proof {
                if shaped {
                    if oe <= i as int && (i as int) < cs {
                        assert(chars@[i as int] == sbody[i as int - oe]);
                        assert(plain@ =~= sbody.subrange(0, i as int + 1 - oe));
                    }
                    if ce <= i as int {
                        assert(chars@[i as int] == stail[i as int - ce]);
                        assert(plain@ =~= sbody + stail.subrange(0, i as int + 1 - ce));
                    }
                }
            }
            plain_len = plain.as_str().unicode_len();
            i += 1;
        }
    }
    // close any tags left open at the end of the line
    while stack.len() > 0
        invariant
            plain@.len() == plain_len,
            attrs_within(attrs@, plain_len as nat),
            input@ == "[/]"@ ==> stack@.len() == 0 && attrs@.len() == 0 && plain_len == 0
                && diagnostics@.len() == 0,
            shaped ==> stack@.len() == 0 && attrs@.len() == 1 && attrs@[0].name@ == sname
                && attrs@[0].position == 0 && attrs@[0].length == sbody.len() && plain@ == sbody
                + stail && diagnostics@.len() == 0,
            forall|m: int| 0 <= m < stack@.len() ==> (#[trigger] stack@[m]).position <= plain_len,
            !input@.contains('[') ==> plain@ == input@ && attrs@.len() == 0 && stack@.len() == 0
                && diagnostics@.len() == 0,
            forall|d: int| 0 <= d < diagnostics@.len() ==> (#[trigger] diagnostics@[d]).severity
                == DiagnosticSeverity::Warning,
        decreases stack@.len(),
    {
        let m = stack.pop().unwrap();
        attrs.push(
            MarkupAttribute {
                name: m.name,
                position: m.position,
                source_position: m.source_position,
                length: plain_len - m.position,
                properties: m.properties,
            },
        );
    }
    proof {
        if !input@.contains('[') {
            assert(input@.subrange(0, n as int) =~= input@);
        }
        if shaped {
            assert forall|nm: Seq<char>, bd: Seq<char>, tl: Seq<char>|
                #[trigger] simple_tag_input(input@, nm, bd, tl) implies nm == sname && bd == sbody
                && tl == stail by {
                lemma_simple_tag_unique(input@, sname, sbody, stail, nm, bd, tl);
            }
        }
    }
    MarkupParseResult { text: plain, attributes: attrs, diagnostics }
}

/// Parses inline-tagged line text into plain text plus an ordered attribute
/// list, with no tag processors registered.
pub fn parse_markup(input: &str) -> (r: MarkupParseResult)
    ensures
        !input@.contains('[') ==> r.text@ == input@ && r.attributes@.len() == 0
            && r.diagnostics@.len() == 0,
        attrs_within(r.attributes@, r.text@.len()),
        forall|i: int| 0 <= i < r.diagnostics@.len() ==> (#[trigger] r.diagnostics@[i]).severity
            == DiagnosticSeverity::Warning,
        input@ == "[/]"@ ==> r.text@.len() == 0 && r.attributes@.len() == 0
            && r.diagnostics@.len() == 0,
        forall|name: Seq<char>, body: Seq<char>, tail: Seq<char>|
            #[trigger] simple_tag_input(input@, name, body, tail) ==> {
                &&& r.text@ == body + tail
                &&& r.attributes@.len() == 1
                &&& r.attributes@[0].name@ == name
                &&& r.attributes@[0].position == 0
                &&& r.attributes@[0].length == body.len()
                &&& r.diagnostics@.len() == 0
            },
{
    let replacements: Vec<(String, String)> = Vec::new();
    parse_markup_with_replacements(input, &replacements)
}

/// Interprets the content between `'['` at `a - 1` and `']'` at `b` of
/// `input`: decides whether it opens, closes or self-closes a tag, or closes
/// all tags, and parses its properties.  Anything else is malformed.  A lone
/// `'/'` closes all tags; a bare word opens a propertyless tag; `'/'`
/// followed by a bare word closes that tag.
pub(crate) fn interpret_tag(input: &str, chars: &Vec<char>, a: usize, b: usize) -> (r: TagAction)
    requires
        chars@ == input@,
        a <= b <= chars@.len(),
    ensures
        a + 1 == b && chars@[a as int] == '/' ==> r is CloseAllTags,
        a < b && (forall|k: int| a <= k < b ==> is_word_char_spec(chars@[k])) ==> {
            &&& r matches TagAction::OpenTag { name, properties } && name@ == chars@.subrange(
                a as int,
                b as int,
            ) && properties@.len() == 0
        },
        a + 1 < b && chars@[a as int] == '/' && (forall|k: int|
            a + 1 <= k < b ==> is_word_char_spec(chars@[k])) ==> {
            &&& r matches TagAction::CloseTag { name } && name@ == chars@.subrange(
                a + 1,
                b as int,
            )
        },
{
    let mut p = a;
    // skip leading spaces
    while p < b && chars[p] == ' '
        invariant
            a <= p <= b,
            b <= chars@.len(),
            chars@ == input@,
            forall|k: int| a <= k < p ==> chars@[k] == ' ',
        decreases b - p,
    {
        p += 1;
    }
    proof {
        if p > a {
            assert(chars@[a as int] == ' ');
        }
    }
    if p >= b {
        // empty marker
        return TagAction::Malformed;
    }
    if chars[p] == '/' {
        // close or close-all
        let mut q = p + 1;
        while q < b && chars[q] == ' '
            invariant
                p < q <= b,
                b <= chars@.len(),
                chars@ == input@,
                forall|k: int| p < k < q ==> chars@[k] == ' ',
            decreases b - q,
        {
            q += 1;
        }
        proof {
            if q > p + 1 {
                assert(chars@[p + 1] == ' ');
            }
        }
        if q >= b {
            return TagAction::CloseAllTags;
        }
        let (name, after) = match read_word(input, chars, q, b) {
            Some(pair) => pair,
            None => {
                return TagAction::Malformed;
            },
        };
        let mut t = after;
        while t < b && chars[t] == ' '
            invariant
                after <= t <= b,
                b <= chars@.len(),
            decreases b - t,
        {
            t += 1;
        }
        if t < b {
            return TagAction::Malformed;
        }
        return TagAction::CloseTag { name };
    }
    // open or self-closing: name first
    let (name, after) = match read_word(input, chars, p, b) {
        Some(pair) => pair,
        None => {
            return TagAction::Malformed;
        },
    };
    let mut properties: Vec<MarkupProperty> = Vec::new();
    let mut t = after;
    // the shorthand `[name=value]` binds the value to the tag's own name
    if t < b && chars[t] == '=' {
        let (value, after_v) = match read_value(input, chars, t + 1, b) {
            Some(pair) => pair,
            None => {
                return TagAction::Malformed;
            },
        };
        push_property(&mut properties, name.clone(), value);
        t = after_v;
    }
    let mut self_closing = false;
    loop
        invariant
            a <= t <= b,
            b <= chars@.len(),
            chars@ == input@,
            a < b,
            chars@[a as int] != '/',
            (a < b && (forall|k: int| a <= k < b ==> is_word_char_spec(chars@[k]))) ==> t == b
                && properties@.len() == 0 && !self_closing,
        decreases b - t,
    {
        let ghost t0 = t;
        // skip spaces
        while t < b && chars[t] == ' '
            invariant
                a <= t <= b,
                t0 <= t,
                b <= chars@.len(),
            decreases b - t,
        {
            t += 1;
        }
        if t >= b {
            break;
        }
        if chars[t] == '/' {
            if t + 1 == b {
                self_closing = true;
                t = b;
                break;
            }
            return TagAction::Malformed;
        }
        let (key, after_k) = match read_word(input, chars, t, b) {
            Some(pair) => pair,
            None => {
                return TagAction::Malformed;
            },
        };
        if after_k < b && chars[after_k] == '=' {
            let (value, after_v) = match read_value(input, chars, after_k + 1, b) {
                Some(pair) => pair,
                None => {
                    return TagAction::Malformed;
                },
            };
            if after_v <= t {
                return TagAction::Malformed;
            }
            push_property(&mut properties, key, value);
            t = after_v;
        } else {
            // a bare value is the tag's implicit primary property
            if after_k <= t {
                return TagAction::Malformed;
            }
            push_property(&mut properties, name.clone(), MarkupValue::String(key));
            t = after_k;
        }
    }
    if self_closing {
        TagAction::SelfCloseTag { name, properties }
    } else {
        TagAction::OpenTag { name, properties }
    }
}

/// Binds a property, replacing any earlier binding of the same name so that
/// property names stay unique within one attribute (last write wins).
fn push_property(properties: &mut Vec<MarkupProperty>, name: String, value: MarkupValue) {
    let n = properties.len();
    let mut found: Option<usize> = None;
    let mut i: usize = 0;
    while i < n
        invariant
            n == properties@.len(),
            i <= n,
            found matches Some(v) ==> v < n,
        decreases n - i,
    {
        if found.is_none() && str_eq(properties[i].name.as_str(), name.as_str()) {
            found = Some(i);
        }
        i += 1;
    }
    if let Some(ix) = found {
        properties.remove(ix);
    }
    properties.push(MarkupProperty { name, value });
}

/// Whether a character may stand in a tag or property name.
pub open spec fn is_word_char_spec(c: char) -> bool {
    ('a' <= c <= 'z') || ('A' <= c <= 'Z') || ('0' <= c <= '9') || c == '_' || c == '-'
}

/// Decides `is_word_char_spec`.
fn is_word_char(c: char) -> (r: bool)
    ensures
        r == is_word_char_spec(c),
{
    let u = c as u32;
    (u >= 97 && u <= 122) || (u >= 65 && u <= 90) || (u >= 48 && u <= 57) || c == '_' || c == '-'
}

/// Reads the longest run of word characters starting at `p`; yields it and
/// the index after it, or nothing when no word character stands at `p`.
fn read_word(input: &str, chars: &Vec<char>, p: usize, b: usize) -> (r: Option<(String, usize)>)
    requires
        chars@ == input@,
        p <= b <= chars@.len(),
    ensures
        r matches Some(pair) ==> {
            &&& p < pair.1 <= b
            &&& pair.0@ == chars@.subrange(p as int, pair.1 as int)
            &&& forall|k: int| p <= k < pair.1 ==> is_word_char_spec(chars@[k])
            &&& pair.1 < b ==> !is_word_char_spec(chars@[pair.1 as int])
        },
        r is None ==> p >= b || !is_word_char_spec(chars@[p as int]),
{
    let mut q = p;
    while q < b && is_word_char(chars[q])
        invariant
            p <= q <= b,
            b <= chars@.len(),
            chars@ == input@,
            forall|k: int| p <= k < q ==> is_word_char_spec(chars@[k]),
        decreases b - q,
    {
        q += 1;
    }
    if q == p {
        None
    } else {
        Some((input.substring_char(p, q).to_owned(), q))
    }
}

/// Reads a property value starting at `p`: a quoted string, a number, a
/// boolean keyword, or a bare word.  Yields the value and the index after it.
fn read_value(input: &str, chars: &Vec<char>, p: usize, b: usize) -> (r: Option<
    (MarkupValue, usize),
>)
    requires
        chars@ == input@,
        p <= b <= chars@.len(),
    ensures
        r matches Some(pair) ==> p < pair.1 <= b,
{
    if p >= b {
        return None;
    }
    if chars[p] == '"' {
        // quoted string: up to the closing quote
        let mut q = p + 1;
        while q < b && chars[q] != '"'
            invariant
                p < q <= b,
                b <= chars@.len(),
            decreases b - q,
        {
            q += 1;
        }
        if q >= b {
            return None;
        }
        return Some((MarkupValue::String(input.substring_char(p + 1, q).to_owned()), q + 1));
    }
    // number: optional minus, digits, optional decimal part
    let mut q = p;
    if chars[q] == '-' {
        q += 1;
    }
    let digits_start = q;
    let mut saw_dot = false;
    while q < b && (is_digit(chars[q]) || (chars[q] == '.' && !saw_dot))
        invariant
            p <= q <= b,
            b <= chars@.len(),
        decreases b - q,
    {
        if chars[q] == '.' {
            saw_dot = true;
        }
        q += 1;
    }
    if q > digits_start {
        let lexeme = input.substring_char(p, q).to_owned();
        if saw_dot {
            return Some((MarkupValue::Float(lexeme), q));
        }
        match crate::util::parse_i64(chars, digits_start, q) {
            Some(v) => {
                let signed = if p < digits_start {
                    if v == i64::MIN {
                        return None;
                    } else {
                        -v
                    }
                } else {
                    v
                };
                return Some((MarkupValue::Integer(signed), q));
            },
            None => {
                return None;
            },
        }
    }
    // boolean keyword or bare word
    match read_word(input, chars, p, b) {
        Some((word, after)) => {
            if str_eq(word.as_str(), "true") {
                Some((MarkupValue::Bool(true), after))
            } else if str_eq(word.as_str(), "false") {
                Some((MarkupValue::Bool(false), after))
            } else {
                Some((MarkupValue::String(word), after))
            }
        },
        None => None,
    }
}

/// Whether a character is an ASCII digit.
fn is_digit(c: char) -> (r: bool)
    ensures
        r == ('0' <= c <= '9'),
{
    let u = c as u32;
    48 <= u && u <= 57
}

} // verus!
