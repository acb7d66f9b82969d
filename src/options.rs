//! The generator's options, read from the request's parameter string.
use vstd::prelude::*;
use vstd::string::*;
use crate::descriptor::GeneratorRequest;
use crate::proto::str_equal;

verus! {

/// The shape of one option in the parameter string: a key, a colon, and a
/// value running up to the next comma.
pub const OPTION_PATTERN: &'static str = "(output|optimize):([^,]+)";

/// Names what matching `pattern` against `text` yields: `None` when the
/// pattern does not compile, else for each successive match the texts of
/// its first and second capture groups.
pub uninterp spec fn option_captures(pattern: Seq<char>, text: Seq<char>) -> Option<Seq<(Option<Seq<char>>, Option<Seq<char>>)>>;

/// The view of an optional text.
pub open spec fn opt_view(o: Option<String>) -> Option<Seq<char>> {
    match o {
        Some(s) => Some(s@),
        None => None,
    }
}

/// The views of captured pairs.
pub open spec fn pairs_view(v: Seq<(Option<String>, Option<String>)>) -> Seq<(Option<Seq<char>>, Option<Seq<char>>)> {
    v.map_values(|p: (Option<String>, Option<String>)| (opt_view(p.0), opt_view(p.1)))
}

/// Relies on `regex::Regex::new`, `Regex::captures_iter`, `Captures::get`
/// and `Match::as_str`: compiles `pattern` (`None` when it does not
/// compile) and lists the texts of capture groups 1 and 2 of each
/// successive match in `text`. The result depends on the two texts alone.
#[verifier::external_body]
fn capture_pairs(pattern: &str, text: &str) -> (r: Option<Vec<(Option<String>, Option<String>)>>)
    ensures
        match r {
            Some(v) => option_captures(pattern@, text@) == Some(pairs_view(v@)),
            None => option_captures(pattern@, text@) is None,
        },
{
    let re = match regex::Regex::new(pattern) {
        Ok(re) => re,
        Err(_) => return None,
    };
    let mut out = Vec::new();
    for caps in re.captures_iter(text) {
        out.push((caps.get(1).map(|m| m.as_str().to_string()), caps.get(2).map(|m| m.as_str().to_string())));
    }
    Some(out)
}

/// Ghost view of the options.
pub struct OptionsView {
    pub output: Option<Seq<char>>,
    pub optimize_for_doxygen: bool,
}

/// No output file, no doxygen tuning.
pub open spec fn default_options() -> OptionsView {
    OptionsView { output: None, optimize_for_doxygen: false }
}

/// One key and value applied to the options: `output` names the single
/// output file, `optimize` turns doxygen tuning on exactly for `doxygen`.
pub open spec fn apply_option(o: OptionsView, key: Option<Seq<char>>, value: Option<Seq<char>>) -> OptionsView {
    match (key, value) {
        (Some(k), Some(v)) => if k == "output"@ {
            OptionsView { output: Some(v), ..o }
        } else if k == "optimize"@ {
            OptionsView { optimize_for_doxygen: v == "doxygen"@, ..o }
        } else {
            o
        },
        _ => o,
    }
}

/// The options that a list of key/value captures sets, later ones winning.
pub open spec fn options_from_pairs(ps: Seq<(Option<Seq<char>>, Option<Seq<char>>)>) -> OptionsView
    decreases ps.len(),
{
    if ps.len() == 0 {
        default_options()
    } else {
        apply_option(options_from_pairs(ps.drop_last()), ps.last().0, ps.last().1)
    }
}

/// The options a request asks for.
pub open spec fn request_options(parameter: Option<String>) -> OptionsView {
    match parameter {
        None => default_options(),
        Some(p) => match option_captures(OPTION_PATTERN@, p@) {
            Some(ps) => options_from_pairs(ps),
            None => default_options(),
        },
    }
}

/// Generator options.
pub struct Options {
    /// Name of the single page holding all services, when one is asked for.
    pub output: Option<String>,
    pub optimize_for_doxygen: bool,
}

impl View for Options {
    type V = OptionsView;

    open spec fn view(&self) -> OptionsView {
        OptionsView { output: opt_view(self.output), optimize_for_doxygen: self.optimize_for_doxygen }
    }
}

impl Default for Options {
    fn default() -> (r: Options)
        ensures
            r@ == default_options(),
    {
        Options { output: None, optimize_for_doxygen: false }
    }
}

impl Options {
    /// The options that a list of captured key/value pairs sets.
    pub fn from_captures(pairs: &Vec<(Option<String>, Option<String>)>) -> (r: Options)
        ensures
            r@ == options_from_pairs(pairs_view(pairs@)),
    {
        let mut result = Options { output: None, optimize_for_doxygen: false };
        let mut i: usize = 0;
        assert(pairs_view(pairs@).subrange(0, 0) =~= Seq::<(Option<Seq<char>>, Option<Seq<char>>)>::empty());
        while i < pairs.len()
            invariant
                i <= pairs@.len(),
                result@ == options_from_pairs(pairs_view(pairs@).subrange(0, i as int)),
            decreases pairs@.len() - i,
        {
            let ghost prefix = pairs_view(pairs@).subrange(0, i as int + 1);
            assert(prefix.drop_last() =~= pairs_view(pairs@).subrange(0, i as int));
            let (key, value) = &pairs[i];
            if let (Some(key), Some(value)) = (key, value) {
                if str_equal(key.as_str(), "output") {
                    result.output = Some(value.clone());
                } else if str_equal(key.as_str(), "optimize") {
                    result.optimize_for_doxygen = str_equal(value.as_str(), "doxygen");
                }
            }
            i = i + 1;
        }
        assert(pairs_view(pairs@).subrange(0, i as int) =~= pairs_view(pairs@));
        result
    }

    /// Reads the options from the request's parameter string.
    pub fn from_request(request: &GeneratorRequest) -> (r: Options)
        ensures
            r@ == request_options(request.parameter),
    {
        match &request.parameter {
            None => Options::default(),
            Some(opt) => match capture_pairs(OPTION_PATTERN, opt.as_str()) {
                Some(pairs) => Options::from_captures(&pairs),
                None => Options::default(),
            },
        }
    }
}

} // verus!
