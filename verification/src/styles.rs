use vstd::prelude::*;
use crate::palette::str_eq;

verus! {

/// The closed set of pattern generators.  Every style tag names one of
/// these; an unrecognized tag falls back to `Geometric`.
#[derive(Clone, Copy, PartialEq, Eq, Structural, Debug)]
pub enum Style {
    Geometric,
    Gradient,
    Minimal,
    Lineart,
    Isometric,
    Abstract,
    Waves,
    Dots,
    Silkflow,
    Sunburst,
}

/// The generator a style tag selects.  Unknown tags select `Geometric`:
/// a fallback, not an error.
pub open spec fn spec_parse_style(tag: Seq<char>) -> Style {
    if tag == "gradient"@ {
        Style::Gradient
    } else if tag == "minimal"@ {
        Style::Minimal
    } else if tag == "lineart"@ {
        Style::Lineart
    } else if tag == "isometric"@ {
        Style::Isometric
    } else if tag == "abstract"@ {
        Style::Abstract
    } else if tag == "waves"@ {
        Style::Waves
    } else if tag == "dots"@ {
        Style::Dots
    } else if tag == "silkflow"@ {
        Style::Silkflow
    } else if tag == "sunburst"@ {
        Style::Sunburst
    } else {
        Style::Geometric
    }
}

/// Parses one style tag.  Total: never an error, unknown tags yield
/// `Geometric`.
pub fn parse_style(tag: &str) -> (r: Style)
    ensures
        r == spec_parse_style(tag@),
{
    if str_eq(tag, "gradient") {
        Style::Gradient
    } else if str_eq(tag, "minimal") {
        Style::Minimal
    } else if str_eq(tag, "lineart") {
        Style::Lineart
    } else if str_eq(tag, "isometric") {
        Style::Isometric
    } else if str_eq(tag, "abstract") {
        Style::Abstract
    } else if str_eq(tag, "waves") {
        Style::Waves
    } else if str_eq(tag, "dots") {
        Style::Dots
    } else if str_eq(tag, "silkflow") {
        Style::Silkflow
    } else if str_eq(tag, "sunburst") {
        Style::Sunburst
    } else {
        Style::Geometric
    }
}

/// A tag that is not one of the nine non-geometric names parses to
/// `Geometric`, exactly as the tag "geometric" itself does.
pub proof fn lemma_unknown_tag_is_geometric(tag: Seq<char>)
    requires
        tag != "gradient"@,
        tag != "minimal"@,
        tag != "lineart"@,
        tag != "isometric"@,
        tag != "abstract"@,
        tag != "waves"@,
        tag != "dots"@,
        tag != "silkflow"@,
        tag != "sunburst"@,
    ensures
        spec_parse_style(tag) == Style::Geometric,
        spec_parse_style(tag) == spec_parse_style("geometric"@),
{
    reveal_strlit("geometric");
    reveal_strlit("gradient");
    reveal_strlit("minimal");
    reveal_strlit("lineart");
    reveal_strlit("isometric");
    reveal_strlit("abstract");
    reveal_strlit("waves");
    reveal_strlit("dots");
    reveal_strlit("silkflow");
    reveal_strlit("sunburst");
    assert("geometric"@.len() == 9);
    assert("gradient"@.len() == 8);
    assert("geometric"@[0] == 'g');
    assert("isometric"@[0] == 'i');
    assert("geometric"@ != "isometric"@);
    assert("geometric"@ != "gradient"@);
    assert("geometric"@ != "minimal"@);
    assert("geometric"@ != "lineart"@);
    assert("geometric"@ != "abstract"@);
    assert("geometric"@ != "waves"@);
    assert("geometric"@ != "dots"@);
    assert("geometric"@ != "silkflow"@);
    assert("geometric"@ != "sunburst"@);
    assert(spec_parse_style("geometric"@) == Style::Geometric);
}

/// The style list a request selects: the parsed tags in request order, or
/// the default pair `[geometric, gradient]` when the list is empty.
pub open spec fn spec_styles(tags: Seq<Seq<char>>) -> Seq<Style> {
    if tags.len() == 0 {
        seq![Style::Geometric, Style::Gradient]
    } else {
        Seq::new(tags.len(), |i: int| spec_parse_style(tags[i]))
    }
}

/// Parses a request's style-tag list, substituting the default pair for
/// an empty list.
pub fn parse_styles(tags: &Vec<String>) -> (r: Vec<Style>)
    ensures
        r@ == spec_styles(tags.deep_view()),
        r@.len() >= 1,
{
    let ghost ts = tags.deep_view();
    let mut out: Vec<Style> = Vec::new();
    if tags.len() == 0 {
        out.push(Style::Geometric);
        out.push(Style::Gradient);
        proof {
            assert(out@ =~= spec_styles(ts));
        }
        return out;
    }
    let mut i: usize = 0;
    while i < tags.len()
        invariant
            i <= tags.len(),
            ts == tags.deep_view(),
            ts.len() == tags.len(),
            forall|j: int| 0 <= j < tags.len() ==> ts[j] == #[trigger] tags[j]@,
            out@.len() == i,
            forall|j: int| 0 <= j < i ==> out@[j] == spec_parse_style(ts[j]),
        decreases tags.len() - i,
    {
        let s = parse_style(tags[i].as_str());
        out.push(s);
        i = i + 1;
    }
    proof {
        assert(out@ =~= spec_styles(ts));
    }
    out
}

} // verus!
