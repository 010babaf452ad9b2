use vstd::prelude::*;
use crate::ext::{rfc3339_millis, rfc3339_of};
use crate::node::{FitnessScores, MatrixNode, NodeType, SealState};
use crate::numfmt::{
    dec_digits, hex_digit_literal, hex_digit_str, id_string, id_text, millis_string, millis_text,
    score_string, score_text, u64_text,
};

verus! {

/// JSON escaping of one character: quote and backslash take a backslash,
/// control characters become a \u00XX escape, everything else stands as is.
pub open spec fn json_escaped_char(c: char) -> Seq<char> {
    if c == '"' {
        "\\\""@
    } else if c == '\\' {
        "\\\\"@
    } else if (c as u32) < 32 {
        "\\u00"@ + hex_digit_str((c as u32 / 16) as int) + hex_digit_str((c as u32 % 16) as int)
    } else {
        seq![c]
    }
}

/// JSON escaping of a whole text, character by character.
pub open spec fn json_escaped(s: Seq<char>) -> Seq<char>
    decreases s.len(),
{
    if s.len() == 0 {
        Seq::empty()
    } else {
        json_escaped(s.drop_last()) + json_escaped_char(s.last())
    }
}

pub fn json_escape(s: &str) -> (r: String)
    ensures
        r@ == json_escaped(s@),
{
    let n = s.unicode_len();
    let mut out = String::new();
    let mut i: usize = 0;
    while i < n
        invariant
            n == s@.len(),
            i <= n,
            out@ == json_escaped(s@.take(i as int)),
        decreases n - i,
    {
        let c = s.get_char(i);
        if c == '"' {
            out.append("\\\"");
        } else if c == '\\' {
            out.append("\\\\");
        } else if (c as u32) < 32 {
            let v = c as u32;
            out.append("\\u00");
            out.append(hex_digit_literal((v / 16) as u64));
            out.append(hex_digit_literal((v % 16) as u64));
        } else {
            let piece = s.substring_char(i, i + 1);
            out.append(piece);
            proof {
                assert(piece@ =~= seq![s@[i as int]]);
            }
        }
        proof {
            assert(s@.take(i as int + 1).drop_last() =~= s@.take(i as int));
            assert(s@.take(i as int + 1).last() == s@[i as int]);
            assert(out@ =~= json_escaped(s@.take(i as int + 1)));
        }
        i = i + 1;
    }
    proof {
        assert(s@.take(n as int) =~= s@);
    }
    out
}

pub open spec fn opt_u64_json(v: Option<u64>) -> Seq<char> {
    match v {
        Some(x) => dec_digits(x as nat),
        None => "null"@,
    }
}

pub open spec fn opt_score_json(v: Option<u32>) -> Seq<char> {
    match v {
        Some(x) => score_text(x as nat),
        None => "null"@,
    }
}

/// The self-describing JSON blob a node's fitness is persisted as; scores
/// are written with two decimal places, absent metrics as null.
pub open spec fn fitness_json_text(f: FitnessScores) -> Seq<char> {
    "{\"coherence\":"@ + score_text(f.coherence as nat) + ",\"hallucination_risk\":"@ + score_text(
        f.hallucination_risk as nat,
    ) + ",\"latency_ms\":"@ + opt_u64_json(f.latency_ms) + ",\"cost_tokens\":"@ + opt_u64_json(
        f.cost_tokens,
    ) + ",\"entropy\":"@ + opt_score_json(f.entropy) + "}"@
}

fn opt_u64_string(v: Option<u64>) -> (s: String)
    ensures
        s@ == opt_u64_json(v),
{
    match v {
        Some(x) => u64_text(x),
        None => String::from_str("null"),
    }
}

pub fn fitness_json(f: &FitnessScores) -> (s: String)
    ensures
        s@ == fitness_json_text(*f),
{
    let mut s = String::from_str("{\"coherence\":");
    let coherence = score_string(f.coherence);
    s.append(coherence.as_str());
    s.append(",\"hallucination_risk\":");
    let risk = score_string(f.hallucination_risk);
    s.append(risk.as_str());
    s.append(",\"latency_ms\":");
    let latency = opt_u64_string(f.latency_ms);
    s.append(latency.as_str());
    s.append(",\"cost_tokens\":");
    let cost = opt_u64_string(f.cost_tokens);
    s.append(cost.as_str());
    s.append(",\"entropy\":");
    let entropy = match f.entropy {
        Some(x) => score_string(x),
        None => String::from_str("null"),
    };
    s.append(entropy.as_str());
    s.append("}");
    s
}

/// How a seal's trigger time is persisted: the RFC 3339 rendering, quoted,
/// where chrono accepts the timestamp; the bare millisecond count where it
/// does not; null where no trigger was recorded.
pub open spec fn triggered_at_json(t: Option<i64>) -> Seq<char> {
    match t {
        Some(ms) => match rfc3339_of(ms as int) {
            Some(text) => "\""@ + json_escaped(text) + "\""@,
            None => millis_text(ms as int),
        },
        None => "null"@,
    }
}

/// The self-describing JSON blob a node's seal is persisted as.
pub open spec fn seal_json_text(s: SealState) -> Seq<char> {
    "{\"sealed\":"@ + (if s.sealed {
        "true"@
    } else {
        "false"@
    }) + ",\"reason\":"@ + (match s.reason {
        Some(x) => "\""@ + json_escaped(x@) + "\""@,
        None => "null"@,
    }) + ",\"triggered_at\":"@ + triggered_at_json(s.triggered_at) + "}"@
}

pub fn seal_json(s: &SealState) -> (r: String)
    ensures
        r@ == seal_json_text(*s),
{
    let mut out = String::from_str("{\"sealed\":");
    if s.sealed {
        out.append("true");
    } else {
        out.append("false");
    }
    out.append(",\"reason\":");
    match &s.reason {
        Some(x) => {
            out.append("\"");
            let escaped = json_escape(x.as_str());
            out.append(escaped.as_str());
            out.append("\"");
        },
        None => {
            out.append("null");
        },
    }
    out.append(",\"triggered_at\":");
    match s.triggered_at {
        Some(ms) => match rfc3339_millis(ms) {
            Some(text) => {
                out.append("\"");
                let escaped = json_escape(text.as_str());
                out.append(escaped.as_str());
                out.append("\"");
            },
            None => {
                let plain = millis_string(ms);
                out.append(plain.as_str());
            },
        },
        None => {
            out.append("null");
        },
    }
    out.append("}");
    proof {
        assert(out@ =~= seal_json_text(*s));
    }
    out
}

/// The debug-style name of each node kind, as persisted in the node table.
pub open spec fn node_type_text(t: NodeType) -> Seq<char> {
    match t {
        NodeType::Origin => "Origin"@,
        NodeType::Meta => "Meta"@,
        NodeType::Recursive => "Recursive"@,
        NodeType::Proxy => "Proxy"@,
        NodeType::Evaluator => "Evaluator"@,
        NodeType::Output => "Output"@,
        NodeType::Mirage => "Mirage"@,
    }
}

pub fn node_type_string(t: &NodeType) -> (s: String)
    ensures
        s@ == node_type_text(*t),
{
    match t {
        NodeType::Origin => String::from_str("Origin"),
        NodeType::Meta => String::from_str("Meta"),
        NodeType::Recursive => String::from_str("Recursive"),
        NodeType::Proxy => String::from_str("Proxy"),
        NodeType::Evaluator => String::from_str("Evaluator"),
        NodeType::Output => String::from_str("Output"),
        NodeType::Mirage => String::from_str("Mirage"),
    }
}

/// One node readied for the store: every column as the plain value the
/// storage collaborator binds, timestamps in sortable text, fitness and
/// seal as self-describing JSON.
pub struct NodeRow {
    pub id: String,
    pub session_id: String,
    pub node_type: String,
    pub parent_id: Option<String>,
    pub depth: u32,
    pub entropy_value: u32,
    pub fitness: String,
    pub seal: String,
    pub content: Option<String>,
    pub created_at: String,
}

pub fn node_row(n: &MatrixNode) -> (r: NodeRow)
    ensures
        r.id@ == id_text(n.id as nat),
        r.session_id@ == id_text(n.session_id as nat),
        r.node_type@ == node_type_text(n.node_type),
        n.parent_id is Some ==> r.parent_id is Some && r.parent_id->0@ == id_text(
            n.parent_id->0 as nat,
        ),
        n.parent_id is None ==> r.parent_id is None,
        r.depth == n.depth,
        r.entropy_value == n.entropy_value,
        r.fitness@ == fitness_json_text(n.fitness),
        r.seal@ == seal_json_text(n.seal),
        r.content.deep_view() == n.content.deep_view(),
        r.created_at@ == match rfc3339_of(n.created_at as int) {
            Some(text) => text,
            None => millis_text(n.created_at as int),
        },
{
    let created_at = match rfc3339_millis(n.created_at) {
        Some(text) => text,
        None => millis_string(n.created_at),
    };
    NodeRow {
        id: id_string(n.id),
        session_id: id_string(n.session_id),
        node_type: node_type_string(&n.node_type),
        parent_id: match n.parent_id {
            Some(p) => Some(id_string(p)),
            None => None,
        },
        depth: n.depth,
        entropy_value: n.entropy_value,
        fitness: fitness_json(&n.fitness),
        seal: seal_json(&n.seal),
        content: match &n.content {
            Some(c) => Some(String::from_str(c.as_str())),
            None => None,
        },
        created_at,
    }
}

}
