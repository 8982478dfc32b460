//! What the interface knows of a model: its display name and context size.
use crate::text::{has_prefix, starts_with, str_eq};
use vstd::prelude::*;
use vstd::string::StringExecFns;

verus! {

/// A display colour.
#[derive(Clone, Copy, Debug, PartialEq, Eq, Structural)]
pub enum Color {
    White,
    Rgb { r: u8, g: u8, b: u8 },
}

/// Facts about one model.
#[derive(Clone, Debug)]
pub struct ModelInfo {
    pub name: Option<String>,
    pub max_context: Option<u64>,
}

impl Default for ModelInfo {
    fn default() -> (r: Self)
        ensures
            r.name is None,
            r.max_context is None,
    {
        ModelInfo { name: None, max_context: None }
    }
}

/// A colour for the models whose display name begins with `prefix`.
#[derive(Clone, Debug)]
pub struct ColorRule {
    pub prefix: String,
    pub color: Color,
}

/// The colour of the first rule whose prefix begins `name`; white when none does.
pub open spec fn first_rule_color(name: Seq<char>, rules: Seq<ColorRule>) -> Color
    decreases rules.len(),
{
    if rules.len() == 0 {
        Color::White
    } else if has_prefix(name, rules[0].prefix@) {
        rules[0].color
    } else {
        first_rule_color(name, rules.drop_first())
    }
}

/// The built-in family rules: names beginning with "GPT-" or "OpenAI" are shown in
/// green. Other families' rules are supplied with the model table.
pub fn default_color_rules() -> (r: Vec<ColorRule>)
    ensures
        r@.len() == 2,
        r@[0].prefix@ == "GPT-"@ && r@[0].color == (Color::Rgb { r: 46, g: 255, b: 137 }),
        r@[1].prefix@ == "OpenAI"@ && r@[1].color == (Color::Rgb { r: 46, g: 255, b: 137 }),
{
    let mut v: Vec<ColorRule> = Vec::new();
    v.push(ColorRule { prefix: String::from_str("GPT-"), color: Color::Rgb { r: 46, g: 255, b: 137 } });
    v.push(ColorRule { prefix: String::from_str("OpenAI"), color: Color::Rgb { r: 46, g: 255, b: 137 } });
    v
}

/// A model's colour: by the first matching rule, white without a display name.
pub open spec fn color_of(name: Option<Seq<char>>, rules: Seq<ColorRule>) -> Color {
    match name {
        Some(n) => first_rule_color(n, rules),
        None => Color::White,
    }
}

impl ModelInfo {
    /// The model's colour under the family rules `rules`, loaded with the model table.
    pub fn get_color(&self, rules: &Vec<ColorRule>) -> (r: Color)
        ensures
            r == color_of(
                match self.name {
                    Some(n) => Some(n@),
                    None => None,
                },
                rules@,
            ),
    {
        let name = match &self.name {
            Some(n) => n,
            None => return Color::White,
        };
        let mut i: usize = 0;
        assert(rules@.subrange(0, rules@.len() as int) == rules@);
        while i < rules.len()
            invariant
                self.name == Some(*name),
                i <= rules@.len(),
                first_rule_color(name@, rules@) == first_rule_color(
                    name@,
                    rules@.subrange(i as int, rules@.len() as int),
                ),
            decreases rules@.len() - i,
        {
            let ghost tail = rules@.subrange(i as int, rules@.len() as int);
            assert(tail[0] == rules@[i as int]);
            if starts_with(name.as_str(), rules[i].prefix.as_str()) {
                assert(first_rule_color(name@, tail) == tail[0].color);
                return rules[i].color;
            }
            assert(tail.drop_first() == rules@.subrange(i + 1, rules@.len() as int));
            i = i + 1;
        }
        assert(rules@.subrange(i as int, rules@.len() as int).len() == 0);
        Color::White
    }
}

/// The known models, by id; loaded once at startup.
pub struct ModelInfoMap {
    pub entries: Vec<(String, ModelInfo)>,
}

impl ModelInfoMap {
    /// The facts about the model `name`: those of its first entry, or none.
    pub fn get_model_info(&self, name: &str) -> (r: ModelInfo)
        ensures
            forall|i: int|
                0 <= i < self.entries@.len() && (#[trigger] self.entries@[i]).0@ == name@ && (forall|
                    j: int,
                | 0 <= j < i ==> (#[trigger] self.entries@[j]).0@ != name@) ==> r.max_context
                    == self.entries@[i].1.max_context && r.name == self.entries@[i].1.name,
            (forall|i: int| 0 <= i < self.entries@.len() ==> (#[trigger] self.entries@[i]).0@ != name@)
                ==> r.name is None && r.max_context is None,
    {
        let mut i: usize = 0;
        while i < self.entries.len()
            invariant
                i <= self.entries@.len(),
                forall|j: int| 0 <= j < i ==> (#[trigger] self.entries@[j]).0@ != name@,
            decreases self.entries@.len() - i,
        {
            if str_eq(self.entries[i].0.as_str(), name) {
                let e = &self.entries[i].1;
                let n = match &e.name {
                    Some(s) => Some(s.clone()),
                    None => None,
                };
                return ModelInfo { name: n, max_context: e.max_context };
            }
            i = i + 1;
        }
        ModelInfo::default()
    }
}

} // verus!
