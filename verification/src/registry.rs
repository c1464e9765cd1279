//! The language registry: an explicitly owned map from grammar ids to
//! highlight queries, plus the registered languages. Language configuration
//! text is read through the toml crate behind a trusted boundary.

use vstd::prelude::*;

use crate::types::opt_str_model;

verus! {

/// A registered grammar: its id and its highlight query source.
pub struct GrammarEntry {
    pub id: String,
    pub highlight_query: String,
}

/// A registered language: its display name and the grammar it uses.
pub struct LanguageEntry {
    pub name: String,
    pub grammar_id: String,
}

/// The registry the pipeline looks grammars up in. Registration happens
/// once at startup; the pipeline only reads it.
pub struct LanguageRegistry {
    pub grammars: Vec<GrammarEntry>,
    pub languages: Vec<LanguageEntry>,
}

/// Spec view of the registered grammars: (id, highlight query) pairs.
pub open spec fn grammars_model(gs: Seq<GrammarEntry>) -> Seq<(Seq<char>, Seq<char>)> {
    gs.map_values(|g: GrammarEntry| (g.id@, g.highlight_query@))
}

/// Spec view of the registered languages: (name, grammar id) pairs.
pub open spec fn languages_model(ls: Seq<LanguageEntry>) -> Seq<(Seq<char>, Seq<char>)> {
    ls.map_values(|l: LanguageEntry| (l.name@, l.grammar_id@))
}

/// The highlight query of the first grammar registered under `id`, if any.
pub open spec fn spec_lookup_grammar(gs: Seq<(Seq<char>, Seq<char>)>, id: Seq<char>) -> Option<
    Seq<char>,
>
    decreases gs.len(),
{
    if gs.len() == 0 {
        Option::None
    } else if gs[0].0 == id {
        Option::Some(gs[0].1)
    } else {
        spec_lookup_grammar(gs.drop_first(), id)
    }
}

impl LanguageRegistry {
    /// An empty registry.
    pub fn new() -> (r: LanguageRegistry)
        ensures
            grammars_model(r.grammars@) == Seq::<(Seq<char>, Seq<char>)>::empty(),
            languages_model(r.languages@) == Seq::<(Seq<char>, Seq<char>)>::empty(),
    {
        let r = LanguageRegistry { grammars: Vec::new(), languages: Vec::new() };
        proof {
            assert(grammars_model(r.grammars@) =~= Seq::<(Seq<char>, Seq<char>)>::empty());
            assert(languages_model(r.languages@) =~= Seq::<(Seq<char>, Seq<char>)>::empty());
        }
        r
    }

    /// Register a grammar under `id` with its highlight query.
    pub fn register_grammar(&mut self, id: String, highlight_query: String)
        ensures
            grammars_model(final(self).grammars@) == grammars_model(old(self).grammars@).push(
                (id@, highlight_query@),
            ),
            final(self).languages == old(self).languages,
    {
        let ghost prev = self.grammars@;
        self.grammars.push(GrammarEntry { id, highlight_query });
        proof {
            assert(grammars_model(self.grammars@) =~= grammars_model(prev).push(
                (self.grammars@.last().id@, self.grammars@.last().highlight_query@),
            ));
        }
    }

    /// Register a language by name, naming the grammar it uses.
    pub fn register_language(&mut self, name: String, grammar_id: String)
        ensures
            languages_model(final(self).languages@) == languages_model(old(self).languages@).push(
                (name@, grammar_id@),
            ),
            final(self).grammars == old(self).grammars,
    {
        let ghost prev = self.languages@;
        self.languages.push(LanguageEntry { name, grammar_id });
        proof {
            assert(languages_model(self.languages@) =~= languages_model(prev).push(
                (self.languages@.last().name@, self.languages@.last().grammar_id@),
            ));
        }
    }

    /// Look a grammar up by id: the highlight query it was registered with.
    pub fn lookup_grammar(&self, id: &str) -> (r: Option<String>)
        ensures
            opt_str_model(r) == spec_lookup_grammar(grammars_model(self.grammars@), id@),
    {
        let key: String = id.to_owned();
        let ghost gs = grammars_model(self.grammars@);
        proof {
            assert(gs.skip(0) =~= gs);
        }
        let mut i: usize = 0;
        while i < self.grammars.len()
            invariant
                i <= self.grammars.len(),
                gs == grammars_model(self.grammars@),
                key@ == id@,
                spec_lookup_grammar(gs, id@) == spec_lookup_grammar(gs.skip(i as int), id@),
            decreases self.grammars.len() - i,
        {
            let g = &self.grammars[i];
            proof {
                assert(gs.skip(i as int)[0] == gs[i as int]);
                assert(gs[i as int] == (g.id@, g.highlight_query@));
            }
            if g.id == key {
                return Some(g.highlight_query.clone());
            }
            proof {
                assert(gs.skip(i as int).drop_first() =~= gs.skip(i + 1));
            }
            i = i + 1;
        }
        proof {
            assert(gs.skip(self.grammars@.len() as int) =~= Seq::<(Seq<char>, Seq<char>)>::empty());
        }
        None
    }
}

/// The string value of top-level key `key` in the toml document `doc`,
/// where the document parses and the key holds a string.
pub uninterp spec fn toml_string_field_spec(doc: Seq<char>, key: Seq<char>) -> Option<Seq<char>>;

/// Relies on toml::from_str::<toml::Value>, toml::Value::get and
/// toml::Value::as_str: reading a top-level string field out of a toml
/// document, a function of the document and the key alone.
#[verifier::external_body]
fn toml_string_field(doc: &str, key: &str) -> (r: Option<String>)
    ensures
        match r {
            Option::Some(s) => toml_string_field_spec(doc@, key@) == Option::Some(s@),
            Option::None => toml_string_field_spec(doc@, key@) is None,
        },
{
    match toml::from_str::<toml::Value>(doc) {
        Ok(v) => match v.get(key) {
            Some(x) => x.as_str().map(|s| s.to_string()),
            None => None,
        },
        Err(_) => None,
    }
}

/// Load an assembly language extension into the registry: read the
/// language's name and grammar id from its configuration text, then
/// register the grammar with its highlight query and the language itself.
/// Returns whether the configuration held both fields; an incomplete
/// configuration registers nothing.
pub fn register_asm_extension(
    registry: &mut LanguageRegistry,
    config_text: &str,
    highlight_query: &str,
) -> (ok: bool)
    ensures
        ok == (toml_string_field_spec(config_text@, "name"@) is Some && toml_string_field_spec(
            config_text@,
            "grammar"@,
        ) is Some),
        ok ==> ({
            let name = toml_string_field_spec(config_text@, "name"@).unwrap();
            let grammar = toml_string_field_spec(config_text@, "grammar"@).unwrap();
            &&& grammars_model(final(registry).grammars@) == grammars_model(
                old(registry).grammars@,
            ).push((grammar, highlight_query@))
            &&& languages_model(final(registry).languages@) == languages_model(
                old(registry).languages@,
            ).push((name, grammar))
        }),
        !ok ==> *final(registry) == *old(registry),
{
    let name = toml_string_field(config_text, "name");
    let grammar = toml_string_field(config_text, "grammar");
    match (name, grammar) {
        (Option::Some(n), Option::Some(g)) => {
            registry.register_grammar(g.clone(), highlight_query.to_owned());
            registry.register_language(n, g);
            true
        },
        _ => false,
    }
}

} // verus!
