//! Extension schemas (GEDCOM 7.0 `SCHMA`): which URI each extension tag stands for.
use vstd::prelude::*;
use vstd::string::StringExecFns;
use crate::error::GedcomError;
use crate::parser::{lemma_kids_push, step_subset_kids, tag_values, value_at, at_level_end, parse_subset, record_read, step_subset_end, tag_error, value_end, Parser, TagHandler};
use crate::text::{chars_of, first_sep, lemma_first_sep_bounds, str_eq, trim_range, trimmed};
use crate::tokenizer::{TokState, Tokenizer};
use crate::types::custom::UserDefinedTag;

verus! {

/// The tag definitions of a file.
#[derive(Clone, Debug)]
pub struct Schema {
    pub tag_definitions: Vec<TagDefinition>,
    pub custom_data: Vec<Box<UserDefinedTag>>,
}

/// An extension tag and the URI it stands for.
#[derive(Clone, Debug, PartialEq)]
pub struct TagDefinition {
    pub tag: String,
    pub uri: String,
}

/// The tag and URI of a `TAG` payload: the text up to the first space and the
/// text after it, each trimmed, when both are non-empty.
pub open spec fn payload_parts(p: Seq<char>) -> Option<(Seq<char>, Seq<char>)> {
    let j = first_sep(p, ' ', 0);
    if j >= p.len() {
        None
    } else {
        let tag = trimmed(p.subrange(0, j));
        let uri = trimmed(p.subrange(j + 1, p.len() as int));
        if tag.len() > 0 && uri.len() > 0 { Some((tag, uri)) } else { None }
    }
}

/// The separator is first met at `n`: no character from `i` up to `n` is it.
proof fn lemma_first_sep_at(s: Seq<char>, sep: char, i: int, n: int)
    requires
        0 <= i <= n < s.len(),
        s[n] == sep,
        forall|k: int| i <= k < n ==> s[k] != sep,
    ensures
        first_sep(s, sep, i) == n,
    decreases n - i,
{
    if i < n {
        lemma_first_sep_at(s, sep, i + 1, n);
    }
}

/// Reading the payload that a definition writes gives the definition back:
/// a tag without spaces, then a space, then a URI, where neither part is
/// empty or has white space at its ends.
pub proof fn lemma_payload_roundtrip(tag: Seq<char>, uri: Seq<char>)
    requires
        tag.len() > 0,
        uri.len() > 0,
        forall|k: int| 0 <= k < tag.len() ==> tag[k] != ' ',
        trimmed(tag) == tag,
        trimmed(uri) == uri,
    ensures
        payload_parts(tag + " "@ + uri) == Some((tag, uri)),
{
    reveal_strlit(" ");
    let p = tag + " "@ + uri;
    let n = tag.len() as int;
    assert(p[n] == ' ');
    assert forall|k: int| 0 <= k < n implies p[k] != ' ' by {
        assert(p[k] == tag[k]);
    }
    lemma_first_sep_at(p, ' ', 0, n);
    assert(p.subrange(0, n) =~= tag);
    assert(p.subrange(n + 1, p.len() as int) =~= uri);
}

impl TagDefinition {
    /// A definition of `tag` as `uri`.
    pub fn new(tag: &str, uri: &str) -> (r: Self)
        ensures
            r.tag@ == tag@,
            r.uri@ == uri@,
    {
        TagDefinition { tag: String::from_str(tag), uri: String::from_str(uri) }
    }

    /// Reads a definition from a `TAG` payload: a tag, a space, a URI.
    pub fn from_payload(payload: &str) -> (r: Option<Self>)
        ensures
            match payload_parts(payload@) {
                Some((t, u)) => r is Some && r->0.tag@ == t && r->0.uri@ == u,
                None => r is None,
            },
    {
        let v = chars_of(payload);
        let mut j: usize = 0;
        while j < v.len() && v[j] != ' '
            invariant
                j <= v@.len(),
                v@ == payload@,
                first_sep(v@, ' ', j as int) == first_sep(v@, ' ', 0),
            decreases v@.len() - j,
        {
            j = j + 1;
        }
        proof {
            lemma_first_sep_bounds(v@, ' ', 0);
        }
        if j >= v.len() {
            return None;
        }
        let tag = trim_range(&v, 0, j);
        let uri = trim_range(&v, j + 1, v.len());
        if !tag.as_str().is_empty() && !uri.as_str().is_empty() {
            Some(TagDefinition { tag, uri })
        } else {
            None
        }
    }

    /// The payload of a `TAG` line: the tag, a space, the URI.
    pub fn to_payload(&self) -> (r: String)
        ensures
            r@ == self.tag@ + " "@ + self.uri@,
    {
        let mut s = self.tag.clone();
        s.append(" ");
        s.append(self.uri.as_str());
        s
    }

    /// Whether the tag is an extension tag: an underscore and at least one more character.
    pub fn is_valid_extension_tag(&self) -> (r: bool)
        ensures
            r == (self.tag@.len() > 1 && self.tag@[0] == '_'),
    {
        let s = self.tag.as_str();
        let n = s.unicode_len();
        n > 1 && s.get_char(0) == '_'
    }
}

/// The URI of the first definition of `tag`.
pub open spec fn uri_of(defs: Seq<TagDefinition>, tag: Seq<char>) -> Option<Seq<char>>
    decreases defs.len(),
{
    if defs.len() == 0 {
        None
    } else if defs[0].tag@ == tag {
        Some(defs[0].uri@)
    } else {
        uri_of(defs.drop_first(), tag)
    }
}

/// The tags defined as `uri`, in order.
pub open spec fn tags_of(defs: Seq<TagDefinition>, uri: Seq<char>) -> Seq<Seq<char>>
    decreases defs.len(),
{
    if defs.len() == 0 {
        Seq::empty()
    } else {
        let before = tags_of(defs.drop_last(), uri);
        if defs.last().uri@ == uri { before.push(defs.last().tag@) } else { before }
    }
}

/// The tag and URI of each definition, in order.
pub open spec fn definition_pairs(v: Seq<TagDefinition>) -> Seq<(Seq<char>, Seq<char>)> {
    v.map_values(|d: TagDefinition| (d.tag@, d.uri@))
}

/// The definitions that `TAG` payloads give, in order: those whose payload
/// has a tag and a URI; the others are passed over.
pub open spec fn payload_definitions(vs: Seq<Seq<char>>) -> Seq<(Seq<char>, Seq<char>)>
    decreases vs.len(),
{
    if vs.len() == 0 {
        Seq::empty()
    } else {
        payload_definitions(vs.drop_last()) + match payload_parts(vs.last()) {
            Some(p) => seq![p],
            None => Seq::empty(),
        }
    }
}

impl Default for Schema {
    fn default() -> (r: Self)
        ensures
            r.tag_definitions@.len() == 0,
            r.custom_data@.len() == 0,
    {
        Schema { tag_definitions: Vec::new(), custom_data: Vec::new() }
    }
}

impl Schema {
    /// Reads a `SCHMA` structure at `level`.
    pub fn new(tokenizer: &mut Tokenizer, level: u8) -> (r: Result<Schema, GedcomError>)
        requires
            old(tokenizer).wf(),
            old(tokenizer).token() is Tag,
        ensures
            record_read(*old(tokenizer), *final(tokenizer), r is Ok, level),
            r is Ok <==> step_subset_end::<Schema>(old(tokenizer).input(), old(tokenizer).state(), level) is Ok,
            r is Ok ==> step_subset_end::<Schema>(old(tokenizer).input(), old(tokenizer).state(), level) == Ok::<TokState, ()>(final(tokenizer).state()),
            r matches Ok(x) ==> x.holds(old(tokenizer).input(), step_subset_kids::<Schema>(old(tokenizer).input(), old(tokenizer).state(), level), level),
    {
        let mut schema = Schema::default();
        proof {
            assert(definition_pairs(schema.tag_definitions@) =~= Seq::<(Seq<char>, Seq<char>)>::empty());
        }
        tokenizer.next_token()?;
        let custom = parse_subset(tokenizer, level, &mut schema)?;
        schema.custom_data = custom;
        Ok(schema)
    }

    /// The URI of the first definition of `tag`.
    pub fn find_uri(&self, tag: &str) -> (r: Option<&str>)
        ensures
            match uri_of(self.tag_definitions@, tag@) {
                Some(u) => r is Some && r->0@ == u,
                None => r is None,
            },
    {
        let mut i: usize = 0;
        proof {
            assert(self.tag_definitions@.subrange(0, self.tag_definitions@.len() as int) =~= self.tag_definitions@);
        }
        while i < self.tag_definitions.len()
            invariant
                i <= self.tag_definitions@.len(),
                uri_of(self.tag_definitions@, tag@) == uri_of(self.tag_definitions@.subrange(i as int, self.tag_definitions@.len() as int), tag@),
            decreases self.tag_definitions@.len() - i,
        {
            let ghost rest = self.tag_definitions@.subrange(i as int, self.tag_definitions@.len() as int);
            proof {
                assert(rest.drop_first() =~= self.tag_definitions@.subrange(i + 1, self.tag_definitions@.len() as int));
            }
            if str_eq(self.tag_definitions[i].tag.as_str(), tag) {
                return Some(self.tag_definitions[i].uri.as_str());
            }
            i = i + 1;
        }
        None
    }

    /// The tags defined as `uri`, in order.
    pub fn find_tags_by_uri(&self, uri: &str) -> (r: Vec<&str>)
        ensures
            r@.map_values(|t: &str| t@) == tags_of(self.tag_definitions@, uri@),
    {
        let mut out: Vec<&str> = Vec::new();
        let mut i: usize = 0;
        while i < self.tag_definitions.len()
            invariant
                i <= self.tag_definitions@.len(),
                out@.map_values(|t: &str| t@) == tags_of(self.tag_definitions@.subrange(0, i as int), uri@),
            decreases self.tag_definitions@.len() - i,
        {
            let ghost before = out@;
            let ghost pre = self.tag_definitions@.subrange(0, i as int);
            let d = &self.tag_definitions[i];
            proof {
                assert(self.tag_definitions@.subrange(0, i + 1).drop_last() =~= pre);
            }
            if str_eq(d.uri.as_str(), uri) {
                out.push(d.tag.as_str());
                proof {
                    assert(out@.map_values(|t: &str| t@) =~= before.map_values(|t: &str| t@).push(d.tag@));
                }
            }
            i = i + 1;
        }
        proof {
            assert(self.tag_definitions@.subrange(0, self.tag_definitions@.len() as int) =~= self.tag_definitions@);
        }
        out
    }

    /// Adds a definition after the others.
    pub fn add_definition(&mut self, definition: TagDefinition)
        ensures
            final(self).tag_definitions@ == old(self).tag_definitions@.push(definition),
            final(self).custom_data == old(self).custom_data,
    {
        self.tag_definitions.push(definition);
    }

    /// Whether there are no definitions.
    pub fn is_empty(&self) -> (r: bool)
        ensures
            r == (self.tag_definitions@.len() == 0),
    {
        self.tag_definitions.len() == 0
    }

    /// The number of definitions.
    pub fn len(&self) -> (r: usize)
        ensures
            r == self.tag_definitions@.len(),
    {
        self.tag_definitions.len()
    }
}

impl TagHandler for Schema {
    open spec fn exact() -> bool {
        true
    }

    open spec fn tag_end(s: Seq<char>, st: TokState, t: Seq<char>, level: u8) -> Result<TokState, ()> {
        if t == "TAG"@ {
            value_end(s, st)
        } else {
            Err(())
        }
    }

    open spec fn holds(&self, s: Seq<char>, kids: Seq<(Seq<char>, TokState)>, level: u8) -> bool {
        definition_pairs(self.tag_definitions@) == payload_definitions(tag_values(s, kids, "TAG"@))
    }

    fn handle_tag(&mut self, tag: &str, tokenizer: &mut Tokenizer, level: u8) -> (r: Result<(), GedcomError>) {
        proof {
            reveal_strlit("TAG");
            assert("TAG"@.len() == 3);
        }
        if str_eq(tag, "TAG") {
            let payload = tokenizer.take_line_value()?;
            if let Some(definition) = TagDefinition::from_payload(payload.as_str()) {
                self.tag_definitions.push(definition);
            }
        } else {
            return Err(tag_error("Unhandled Schema Tag: ", tag, tokenizer.line()));
        }
        proof {
            let kid = (tag@, old(tokenizer).state());
            assert forall|kids: Seq<(Seq<char>, TokState)>| old(self).holds(old(tokenizer).input(), kids, level)
                implies #[trigger] self.holds(old(tokenizer).input(), kids.push(kid), level) by {
                lemma_kids_push(old(tokenizer).input(), kids, kid);
                let vs = tag_values(old(tokenizer).input(), kids, "TAG"@);
                assert(vs.push(value_at(old(tokenizer).input(), old(tokenizer).state())).drop_last() =~= vs);
                assert(definition_pairs(self.tag_definitions@) =~= definition_pairs(old(self).tag_definitions@)
                    + match payload_parts(value_at(old(tokenizer).input(), old(tokenizer).state())) {
                        Some(p) => seq![p],
                        None => Seq::empty(),
                    });
            }
        }
        Ok(())
    }
}

impl Parser for Schema {
    fn parse(&mut self, tokenizer: &mut Tokenizer, level: u8) -> (r: Result<(), GedcomError>) 
        ensures
            r is Ok ==> at_level_end(*final(tokenizer), level),
            r is Ok <==> step_subset_end::<Schema>(old(tokenizer).input(), old(tokenizer).state(), level) is Ok,
            r is Ok && old(self).holds(old(tokenizer).input(), Seq::empty(), level)
                ==> final(self).holds(old(tokenizer).input(), step_subset_kids::<Schema>(old(tokenizer).input(), old(tokenizer).state(), level), level),
    {
        tokenizer.next_token()?;
        let custom = parse_subset(tokenizer, level, self)?;
        self.custom_data = custom;
        Ok(())
    }
}

} // verus!
