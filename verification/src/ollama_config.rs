//! Ollama Modelfile parsing: the base model (`FROM`) and the parameters
//! (`PARAMETER <key> <value>`).
use vstd::prelude::*;

use crate::text::{
    chars_of, join_spaces, parse_u32_spec, parse_u32_str, range_eq, ranges_view, split,
    split_state, starts_with, str_eq, string_of, trim, trim_char, trim_char_range, trim_range,
    trimmed, word_ranges, words, push_joined,
};

verus! {

/// What a Modelfile says: the base model and the parameters, a later
/// `PARAMETER` line for a key replacing an earlier one.
pub struct OllamaModelConfig {
    base_model: Option<String>,
    parameters: Vec<(String, String)>,
}

pub ghost struct ModelfileView {
    pub base_model: Option<Seq<char>>,
    pub parameters: Map<Seq<char>, Seq<char>>,
}

/// The parameters that a list of assignments leaves, later ones winning.
pub open spec fn params_map(v: Seq<(String, String)>) -> Map<Seq<char>, Seq<char>>
    decreases v.len(),
{
    if v.len() == 0 {
        Map::empty()
    } else {
        params_map(v.drop_last()).insert(v.last().0@, v.last().1@)
    }
}

impl View for OllamaModelConfig {
    type V = ModelfileView;

    closed spec fn view(&self) -> ModelfileView {
        ModelfileView {
            base_model: match self.base_model {
                Some(b) => Some(b@),
                None => None,
            },
            parameters: params_map(self.parameters@),
        }
    }
}

pub open spec fn empty_modelfile() -> ModelfileView {
    ModelfileView { base_model: None, parameters: Map::empty() }
}

/// The effect of one Modelfile line. Blank lines and `#` comments are skipped;
/// `FROM <base>` sets the base model when `<base>` is not blank; `PARAMETER <key>
/// <words...>` sets `<key>` to the words joined by single spaces with surrounding
/// double quotes removed, when there is at least one word after the key. Other
/// lines are ignored.
pub open spec fn modelfile_line(cfg: ModelfileView, line: Seq<char>) -> ModelfileView {
    let t = trim(line);
    if t.len() == 0 || t[0] == '#' {
        cfg
    } else if starts_with(t, "FROM "@) {
        let base = trim(t.subrange("FROM "@.len() as int, t.len() as int));
        if base.len() > 0 {
            ModelfileView { base_model: Some(base), ..cfg }
        } else {
            cfg
        }
    } else if starts_with(t, "PARAMETER "@) {
        let ws = words(t.subrange("PARAMETER "@.len() as int, t.len() as int));
        if ws.len() == 0 {
            cfg
        } else {
            let value = join_spaces(ws.drop_first());
            if value.len() > 0 {
                ModelfileView {
                    parameters: cfg.parameters.insert(ws[0], trim_char(value, '"')),
                    ..cfg
                }
            } else {
                cfg
            }
        }
    } else {
        cfg
    }
}

pub open spec fn modelfile_lines(lines: Seq<Seq<char>>) -> ModelfileView
    decreases lines.len(),
{
    if lines.len() == 0 {
        empty_modelfile()
    } else {
        modelfile_line(modelfile_lines(lines.drop_last()), lines.last())
    }
}

/// What a Modelfile's text says, read line by line.
pub open spec fn parse_modelfile_spec(contents: Seq<char>) -> ModelfileView {
    modelfile_lines(split(contents, '\n'))
}

/// What the value of parameter `key` parses to as a `u32`, if it is set.
pub open spec fn u32_param(cfg: ModelfileView, key: Seq<char>) -> Option<u32> {
    if cfg.parameters.contains_key(key) {
        parse_u32_spec(trim(cfg.parameters[key]))
    } else {
        None
    }
}

proof fn lemma_params_lookup(v: Seq<(String, String)>, key: Seq<char>, j: int)
    requires
        0 <= j < v.len(),
        v[j].0@ == key,
        forall|k: int| j < k < v.len() ==> (#[trigger] v[k]).0@ != key,
    ensures
        params_map(v).contains_key(key),
        params_map(v)[key] == v[j].1@,
    decreases v.len(),
{
    if j < v.len() - 1 {
        lemma_params_lookup(v.drop_last(), key, j);
    }
}

proof fn lemma_params_absent(v: Seq<(String, String)>, key: Seq<char>)
    requires
        forall|k: int| 0 <= k < v.len() ==> (#[trigger] v[k]).0@ != key,
    ensures
        !params_map(v).contains_key(key),
    decreases v.len(),
{
    if v.len() > 0 {
        lemma_params_absent(v.drop_last(), key);
    }
}

impl OllamaModelConfig {
    pub fn base_model(&self) -> (r: Option<&str>)
        ensures
            match r {
                Some(s) => self@.base_model == Some(s@),
                None => self@.base_model is None,
            },
    {
        match &self.base_model {
            Some(b) => Some(b.as_str()),
            None => None,
        }
    }

    pub fn parameter(&self, key: &str) -> (r: Option<&str>)
        ensures
            match r {
                Some(s) => self@.parameters.contains_key(key@) && self@.parameters[key@] == s@,
                None => !self@.parameters.contains_key(key@),
            },
    {
        let mut i = self.parameters.len();
        while i > 0
            invariant
                i <= self.parameters@.len(),
                forall|k: int| i <= k < self.parameters@.len() ==> (
                #[trigger] self.parameters@[k]).0@ != key@,
            decreases i,
        {
            i = i - 1;
            if str_eq(self.parameters[i].0.as_str(), key) {
                proof {
                    lemma_params_lookup(self.parameters@, key@, i as int);
                }
                return Some(self.parameters[i].1.as_str());
            }
        }
        proof {
            lemma_params_absent(self.parameters@, key@);
        }
        None
    }

    pub fn context_length(&self) -> (r: Option<u32>)
        ensures
            r == u32_param(self@, "num_ctx"@),
    {
        self.parse_u32_param("num_ctx")
    }

    pub fn max_tokens(&self) -> (r: Option<u32>)
        ensures
            r == u32_param(self@, "num_predict"@),
    {
        self.parse_u32_param("num_predict")
    }

    fn parse_u32_param(&self, key: &str) -> (r: Option<u32>)
        ensures
            r == u32_param(self@, key@),
    {
        match self.parameter(key) {
            Some(value) => {
                let t = trimmed(value);
                parse_u32_str(t.as_str())
            },
            None => None,
        }
    }
}

fn modelfile_step(cfg: &mut OllamaModelConfig, v: &Vec<char>, from: usize, to: usize)
    requires
        from <= to <= v@.len(),
    ensures
        final(cfg)@ == modelfile_line(old(cfg)@, v@.subrange(from as int, to as int)),
{
    let (a, b) = trim_range(v, from, to);
    let ghost t = v@.subrange(a as int, b as int);
    if a == b || v[a] == '#' {
        return ;
    }
    let from_len = "FROM ".unicode_len();
    if b - a >= from_len && range_eq(v, a, a + from_len, "FROM ") {
        assert(t.subrange(0, from_len as int) =~= v@.subrange(a as int, a + from_len));
        let (c, d) = trim_range(v, a + from_len, b);
        assert(t.subrange(from_len as int, t.len() as int) =~= v@.subrange(
            a + from_len,
            b as int,
        ));
        if c < d {
            cfg.base_model = Some(string_of(v, c, d));
        }
        return ;
    }
    assert(!starts_with(t, "FROM "@)) by {
        if b - a >= from_len {
            assert(t.subrange(0, from_len as int) =~= v@.subrange(a as int, a + from_len));
        }
    }
    let param_len = "PARAMETER ".unicode_len();
    if b - a >= param_len && range_eq(v, a, a + param_len, "PARAMETER ") {
        assert(t.subrange(0, param_len as int) =~= v@.subrange(a as int, a + param_len));
        assert(t.subrange(param_len as int, t.len() as int) =~= v@.subrange(
            a + param_len,
            b as int,
        ));
        let rs = word_ranges(v, a + param_len, b);
        if rs.len() == 0 {
            return ;
        }
        let ghost ws = ranges_view(v@, rs@);
        let mut value: Vec<char> = Vec::new();
        push_joined(&mut value, v, &rs, 1);
        assert(value@ =~= join_spaces(ws.drop_first())) by {
            assert(ws.subrange(1, ws.len() as int) =~= ws.drop_first());
        }
        if value.len() > 0 {
            let (e, f) = trim_char_range(&value, 0, value.len(), '"');
            assert(value@.subrange(0, value@.len() as int) =~= value@);
            let cleaned = string_of(&value, e, f);
            let (k0, k1) = rs[0];
            let key = string_of(v, k0, k1);
            let ghost before = cfg.parameters@;
            cfg.parameters.push((key, cleaned));
            assert(cfg.parameters@.drop_last() =~= before);
        }
        return ;
    }
    assert(!starts_with(t, "PARAMETER "@)) by {
        if b - a >= param_len {
            assert(t.subrange(0, param_len as int) =~= v@.subrange(a as int, a + param_len));
        }
    }
}

/// Parses the text of a Modelfile.
pub fn parse_modelfile(contents: &str) -> (r: OllamaModelConfig)
    ensures
        r@ == parse_modelfile_spec(contents@),
{
    let v = chars_of(contents);
    let mut cfg = OllamaModelConfig { base_model: None, parameters: Vec::new() };
    assert(cfg@ == empty_modelfile()) by {
        assert(cfg@.parameters =~= Map::<Seq<char>, Seq<char>>::empty());
    }
    let ghost s = v@;
    let mut start: usize = 0;
    let mut i: usize = 0;
    while i < v.len()
        invariant
            s == v@,
            start <= i <= v@.len(),
            v@.subrange(start as int, i as int) == split_state(s.subrange(0, i as int), '\n').1,
            cfg@ == modelfile_lines(split_state(s.subrange(0, i as int), '\n').0),
        decreases v@.len() - i,
    {
        let ghost prev = s.subrange(0, i as int);
        let ghost next = s.subrange(0, i + 1);
        assert(next.drop_last() =~= prev);
        if v[i] == '\n' {
            modelfile_step(&mut cfg, &v, start, i);
            let ghost d = split_state(prev, '\n').0;
            assert(d.push(split_state(prev, '\n').1).drop_last() =~= d);
            i = i + 1;
            start = i;
            assert(v@.subrange(start as int, i as int) =~= Seq::<char>::empty());
        } else {
            i = i + 1;
            assert(v@.subrange(start as int, i as int) =~= v@.subrange(
                start as int,
                (i - 1) as int,
            ).push(v@[i - 1]));
        }
    }
    modelfile_step(&mut cfg, &v, start, v.len());
    proof {
        assert(s.subrange(0, s.len() as int) =~= s);
        let d = split_state(s, '\n').0;
        assert(d.push(split_state(s, '\n').1).drop_last() =~= d);
    }
    cfg
}

} // verus!
