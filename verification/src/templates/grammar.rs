//! GBNF grammar for the plain-JSON tool-call protocol.
use vstd::prelude::*;

use crate::schema::gbnf::gbnf;
use crate::tool::{entry_defs, DefModel, ToolRegistry};
use crate::text::{append_joined, join};

verus! {

broadcast use vstd::std_specs::vec::group_vec_axioms;

/// Builder for the tool-call GBNF grammar.
pub struct GbnfToolCallGrammar;

/// One tool's `{"tool": "<name>", "args": <input>}` alternative.
pub open spec fn envelope_alternative(d: DefModel) -> Seq<char> {
    "(\"{\" ws \"\\\"tool\\\":\" ws \"\\\""@ + d.name + "\\\"\" ws \",\" ws \"\\\"args\\\":\" ws "@ + gbnf(d.input)
        + " ws \"}\")"@
}

/// The rules before the tool-call alternatives.
pub open spec fn grammar_head() -> Seq<char> {
    "root ::= block+\nblock ::= text | tool-call\ntext ::= [^{]+\ntool-call ::= "@
}

/// The rules after the tool-call alternatives: whitespace and generic JSON values.
pub open spec fn grammar_tail() -> Seq<char> {
    "\nws ::= [ \\t\\n]*\nstring ::= \"\\\"\" ([^\"\\\\] | \"\\\\\" .)* \"\\\"\"\nnumber ::= \"-\"? [0-9]+ (\".\" [0-9]+)? ([eE] [+-]? [0-9]+)?\nvalue ::= string | number | (\"true\" | \"false\") | \"null\" | \"[\" ws (value (\",\" ws value)*)? ws \"]\" | \"{\" ws (string \":\" ws value (\",\" ws string \":\" ws value)*)? ws \"}\"\n"@
}

/// The grammar `( <text> | <tool_call> )+` over the given tools; `None`
/// without tools.
pub open spec fn tool_grammar(defs: Seq<DefModel>) -> Option<Seq<char>> {
    if defs.len() == 0 {
        None
    } else {
        Some(grammar_head() + join(defs.map_values(|d: DefModel| envelope_alternative(d)), " | "@) + grammar_tail())
    }
}

impl GbnfToolCallGrammar {
    /// A grammar matching `( <text> | <tool_call> )+` where each tool call is
    /// `{"tool": "<name>", "args": <input>}`; `None` for an empty registry.
    pub fn from_registry<H>(registry: &ToolRegistry<H>) -> (r: Option<String>)
        ensures
            match tool_grammar(entry_defs(registry@)) {
                Some(g) => r matches Some(s) && s@ == g,
                None => r is None,
            },
    {
        if registry.is_empty() {
            return None;
        }
        let defs = registry.definitions();
        let ghost ds = entry_defs(registry@);
        let ghost alts_spec = ds.map_values(|d: DefModel| envelope_alternative(d));
        let mut alts: Vec<String> = Vec::new();
        let mut i: usize = 0;
        while i < defs.len()
            invariant
                i <= defs.len(),
                defs@.map_values(|d: crate::tool::ToolDefinition| d@) == ds,
                alts_spec == ds.map_values(|d: DefModel| envelope_alternative(d)),
                alts@.len() == i,
                forall|k: int| 0 <= k < i ==> #[trigger] alts@[k]@ == alts_spec[k],
            decreases defs.len() - i,
        {
            let def = &defs[i];
            assert(def@ == ds[i as int]);
            let mut alt = String::from_str("(\"{\" ws \"\\\"tool\\\":\" ws \"\\\"");
            alt.append(def.name.as_str());
            alt.append("\\\"\" ws \",\" ws \"\\\"args\\\":\" ws ");
            let g = def.input.to_gbnf();
            alt.append(g.as_str());
            alt.append(" ws \"}\")");
            alts.push(alt);
            i = i + 1;
        }
        let mut out = String::from_str("root ::= block+\nblock ::= text | tool-call\ntext ::= [^{]+\ntool-call ::= ");
        append_joined(&mut out, &alts, " | ");
        out.append("\nws ::= [ \\t\\n]*\nstring ::= \"\\\"\" ([^\"\\\\] | \"\\\\\" .)* \"\\\"\"\nnumber ::= \"-\"? [0-9]+ (\".\" [0-9]+)? ([eE] [+-]? [0-9]+)?\nvalue ::= string | number | (\"true\" | \"false\") | \"null\" | \"[\" ws (value (\",\" ws value)*)? ws \"]\" | \"{\" ws (string \":\" ws value (\",\" ws string \":\" ws value)*)? ws \"}\"\n");
        assert(alts@.map_values(|p: String| p@) =~= alts_spec);
        Some(out)
    }
}

} // verus!
