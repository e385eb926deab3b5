//! Constellation stick figures: which stars each figure joins, and how the stars
//! resolved from a catalog become polylines and line-list segments.
use vstd::prelude::*;
use vstd::string::StrSliceExecFns;
use vstd::seq_lib::lemma_flatten_concat;

verus! {

/// One constellation's stick figure.
pub struct Figure {
    /// Name as a reader would say it, used to label the figure.
    pub name: &'static str,
    /// IAU abbreviation, and the default constellation for bare Bayer designations.
    pub con: &'static str,
    /// Paths through the figure, each drawn as a polyline. `"Alp"` is this constellation's
    /// Alpha; `"And:Alp"` reaches into a neighbour, for the stars that figures share.
    pub paths: Vec<Vec<&'static str>>,
}

/// A figure as text.
#[verifier::ext_equal]
pub struct FigureView {
    pub name: Seq<char>,
    pub con: Seq<char>,
    pub paths: Seq<Seq<Seq<char>>>,
}

impl DeepView for Figure {
    type V = FigureView;

    open spec fn deep_view(&self) -> FigureView {
        FigureView { name: self.name@, con: self.con@, paths: self.paths.deep_view() }
    }
}

/// The figures drawn: bright, widely recognised constellations rather than all 88.
pub open spec fn figure_table_view() -> Seq<FigureView> {
    seq![
        FigureView { name: "Ursa Major"@, con: "UMa"@, paths: seq![seq!["Eta"@, "Zet"@, "Eps"@, "Del"@, "Gam"@, "Bet"@, "Alp"@, "Del"@]] },
        FigureView { name: "Ursa Minor"@, con: "UMi"@, paths: seq![seq!["Alp"@, "Del"@, "Eps"@, "Zet"@, "Bet"@, "Gam"@, "Eta"@, "Zet"@]] },
        FigureView { name: "Cassiopeia"@, con: "Cas"@, paths: seq![seq!["Bet"@, "Alp"@, "Gam"@, "Del"@, "Eps"@]] },
        FigureView { name: "Orion"@, con: "Ori"@, paths: seq![seq!["Alp"@, "Zet"@, "Kap"@], seq!["Gam"@, "Del"@, "Bet"@], seq!["Del"@, "Eps"@, "Zet"@], seq!["Alp"@, "Gam"@], seq!["Lam"@, "Alp"@], seq!["Lam"@, "Gam"@]] },
        FigureView { name: "Canis Major"@, con: "CMa"@, paths: seq![seq!["Bet"@, "Alp"@, "Del"@, "Eta"@], seq!["Del"@, "Eps"@, "Zet"@]] },
        FigureView { name: "Canis Minor"@, con: "CMi"@, paths: seq![seq!["Alp"@, "Bet"@]] },
        FigureView { name: "Taurus"@, con: "Tau"@, paths: seq![seq!["Bet"@, "Eps"@, "Alp"@, "The-2"@, "Gam"@], seq!["Zet"@, "Alp"@]] },
        FigureView { name: "Gemini"@, con: "Gem"@, paths: seq![seq!["Alp"@, "Tau"@, "Eps"@, "Mu"@, "Eta"@], seq!["Bet"@, "Ups"@, "Del"@, "Xi"@], seq!["Del"@, "Gam"@], seq!["Alp"@, "Bet"@]] },
        FigureView { name: "Leo"@, con: "Leo"@, paths: seq![seq!["Eps"@, "Mu"@, "Zet"@, "Gam-1"@, "Eta"@, "Alp"@], seq!["Alp"@, "The"@, "Bet"@], seq!["The"@, "Del"@, "Gam-1"@]] },
        FigureView { name: "Virgo"@, con: "Vir"@, paths: seq![seq!["Alp"@, "The"@, "Gam"@, "Eta"@, "Bet"@], seq!["Gam"@, "Del"@, "Eps"@]] },
        FigureView { name: "Bootes"@, con: "Boo"@, paths: seq![seq!["Alp"@, "Eps"@, "Del"@, "Bet"@, "Gam"@, "Rho"@, "Alp"@], seq!["Alp"@, "Eta"@]] },
        FigureView { name: "Scorpius"@, con: "Sco"@, paths: seq![seq!["Bet-1"@, "Del"@, "Pi"@, "Sig"@, "Alp"@, "Tau"@, "Eps"@, "Mu-1"@, "Zet-2"@, "Eta"@, "The"@, "Iot-1"@, "Kap"@, "Ups"@, "Lam"@]] },
        FigureView { name: "Sagittarius"@, con: "Sgr"@, paths: seq![seq!["Gam-2"@, "Del"@, "Eps"@, "Zet"@, "Tau"@, "Sig"@, "Phi"@, "Del"@], seq!["Phi"@, "Lam"@, "Del"@]] },
        FigureView { name: "Cygnus"@, con: "Cyg"@, paths: seq![seq!["Alp"@, "Gam"@, "Bet-1"@], seq!["Del"@, "Gam"@, "Eps"@]] },
        FigureView { name: "Lyra"@, con: "Lyr"@, paths: seq![seq!["Alp"@, "Zet-1"@, "Bet"@, "Gam"@, "Zet-1"@]] },
        FigureView { name: "Aquila"@, con: "Aql"@, paths: seq![seq!["Bet"@, "Alp"@, "Gam"@], seq!["Gam"@, "Del"@, "Lam"@], seq!["Zet"@, "Del"@]] },
        FigureView { name: "Crux"@, con: "Cru"@, paths: seq![seq!["Alp-1"@, "Gam"@], seq!["Bet"@, "Del"@]] },
        FigureView { name: "Perseus"@, con: "Per"@, paths: seq![seq!["Eta"@, "Gam"@, "Alp"@, "Del"@, "Eps"@, "Zet"@], seq!["Alp"@, "Bet"@, "Rho"@]] },
        FigureView { name: "Andromeda"@, con: "And"@, paths: seq![seq!["Alp"@, "Del"@, "Bet"@, "Gam-1"@]] },
        FigureView { name: "Pegasus"@, con: "Peg"@, paths: seq![seq!["And:Alp"@, "Bet"@, "Alp"@, "Gam"@, "And:Alp"@], seq!["Alp"@, "The"@, "Eps"@], seq!["Bet"@, "Eta"@]] },
        FigureView { name: "Auriga"@, con: "Aur"@, paths: seq![seq!["Alp"@, "Bet"@, "The"@, "Tau:Bet"@, "Iot"@, "Eps"@, "Alp"@]] },
    ]
}

/// The figures drawn. Bright, widely recognised constellations rather than all 88 -- the
/// faint ones add clutter without adding orientation cues.
pub fn figure_table() -> (figures: Vec<Figure>)
    ensures
        figures.deep_view() == figure_table_view(),
{
    let figures = vec![
        Figure {
            name: "Ursa Major",
            con: "UMa",
            paths: vec![
                vec!["Eta", "Zet", "Eps", "Del", "Gam", "Bet", "Alp", "Del"],
            ],
        },
        Figure {
            name: "Ursa Minor",
            con: "UMi",
            paths: vec![
                vec!["Alp", "Del", "Eps", "Zet", "Bet", "Gam", "Eta", "Zet"],
            ],
        },
        Figure {
            name: "Cassiopeia",
            con: "Cas",
            paths: vec![
                vec!["Bet", "Alp", "Gam", "Del", "Eps"],
            ],
        },
        Figure {
            name: "Orion",
            con: "Ori",
            paths: vec![
                vec!["Alp", "Zet", "Kap"],
                vec!["Gam", "Del", "Bet"],
                vec!["Del", "Eps", "Zet"],
                vec!["Alp", "Gam"],
                vec!["Lam", "Alp"],
                vec!["Lam", "Gam"],
            ],
        },
        Figure {
            name: "Canis Major",
            con: "CMa",
            paths: vec![
                vec!["Bet", "Alp", "Del", "Eta"],
                vec!["Del", "Eps", "Zet"],
            ],
        },
        Figure {
            name: "Canis Minor",
            con: "CMi",
            paths: vec![
                vec!["Alp", "Bet"],
            ],
        },
        Figure {
            name: "Taurus",
            con: "Tau",
            paths: vec![
                vec!["Bet", "Eps", "Alp", "The-2", "Gam"],
                vec!["Zet", "Alp"],
            ],
        },
        Figure {
            name: "Gemini",
            con: "Gem",
            paths: vec![
                vec!["Alp", "Tau", "Eps", "Mu", "Eta"],
                vec!["Bet", "Ups", "Del", "Xi"],
                vec!["Del", "Gam"],
                vec!["Alp", "Bet"],
            ],
        },
        Figure {
            name: "Leo",
            con: "Leo",
            paths: vec![
                vec!["Eps", "Mu", "Zet", "Gam-1", "Eta", "Alp"],
                vec!["Alp", "The", "Bet"],
                vec!["The", "Del", "Gam-1"],
            ],
        },
        Figure {
            name: "Virgo",
            con: "Vir",
            paths: vec![
                vec!["Alp", "The", "Gam", "Eta", "Bet"],
                vec!["Gam", "Del", "Eps"],
            ],
        },
        Figure {
            name: "Bootes",
            con: "Boo",
            paths: vec![
                vec!["Alp", "Eps", "Del", "Bet", "Gam", "Rho", "Alp"],
                vec!["Alp", "Eta"],
            ],
        },
        Figure {
            name: "Scorpius",
            con: "Sco",
            paths: vec![
                vec!["Bet-1", "Del", "Pi", "Sig", "Alp", "Tau", "Eps", "Mu-1", "Zet-2", "Eta", "The", "Iot-1", "Kap", "Ups", "Lam"],
            ],
        },
        Figure {
            name: "Sagittarius",
            con: "Sgr",
            paths: vec![
                vec!["Gam-2", "Del", "Eps", "Zet", "Tau", "Sig", "Phi", "Del"],
                vec!["Phi", "Lam", "Del"],
            ],
        },
        Figure {
            name: "Cygnus",
            con: "Cyg",
            paths: vec![
                vec!["Alp", "Gam", "Bet-1"],
                vec!["Del", "Gam", "Eps"],
            ],
        },
        Figure {
            name: "Lyra",
            con: "Lyr",
            paths: vec![
                vec!["Alp", "Zet-1", "Bet", "Gam", "Zet-1"],
            ],
        },
        Figure {
            name: "Aquila",
            con: "Aql",
            paths: vec![
                vec!["Bet", "Alp", "Gam"],
                vec!["Gam", "Del", "Lam"],
                vec!["Zet", "Del"],
            ],
        },
        Figure {
            name: "Crux",
            con: "Cru",
            paths: vec![
                vec!["Alp-1", "Gam"],
                vec!["Bet", "Del"],
            ],
        },
        Figure {
            name: "Perseus",
            con: "Per",
            paths: vec![
                vec!["Eta", "Gam", "Alp", "Del", "Eps", "Zet"],
                vec!["Alp", "Bet", "Rho"],
            ],
        },
        Figure {
            name: "Andromeda",
            con: "And",
            paths: vec![
                vec!["Alp", "Del", "Bet", "Gam-1"],
            ],
        },
        Figure {
            name: "Pegasus",
            con: "Peg",
            paths: vec![
                vec!["And:Alp", "Bet", "Alp", "Gam", "And:Alp"],
                vec!["Alp", "The", "Eps"],
                vec!["Bet", "Eta"],
            ],
        },
        Figure {
            name: "Auriga",
            con: "Aur",
            paths: vec![
                vec!["Alp", "Bet", "The", "Tau:Bet", "Iot", "Eps", "Alp"],
            ],
        },
    ];
    assert(figures.deep_view() =~~= figure_table_view());
    figures
}

/// `k` is the position of the first `:` in `token`.
pub open spec fn is_first_colon(token: Seq<char>, k: int) -> bool {
    &&& 0 <= k < token.len()
    &&& token[k] == ':'
    &&& forall|j: int| 0 <= j < k ==> token[j] != ':'
}

/// The constellation and Bayer parts of a designation token: `"And:Alp"` names Alpha
/// Andromedae wherever it appears; a bare `"Alp"` is the Alpha of `con`.
pub open spec fn designation_parts(con: Seq<char>, token: Seq<char>) -> (Seq<char>, Seq<char>) {
    if token.contains(':') {
        let k = choose|k: int| is_first_colon(token, k);
        (token.take(k), token.skip(k + 1))
    } else {
        (con, token)
    }
}

/// Split `"And:Alp"` into its constellation and Bayer parts, defaulting to `con`.
pub fn split_designation(con: &'static str, token: &'static str) -> (parts: (&'static str, &'static str))
    ensures
        (parts.0@, parts.1@) == designation_parts(con@, token@),
{
    let n = token.unicode_len();
    let mut i: usize = 0;
    while i < n
        invariant
            n == token@.len(),
            i <= n,
            forall|j: int| 0 <= j < i ==> token@[j] != ':',
        decreases n - i,
    {
        if token.get_char(i) == ':' {
            let other = token.substring_char(0, i);
            let bayer = token.substring_char(i + 1, n);
            proof {
                assert(is_first_colon(token@, i as int));
                assert(token@.contains(':'));
                let k = choose|k: int| is_first_colon(token@, k);
                assert(k == i) by {
                    if k < i {
                        assert(token@[k] != ':');
                    } else if k > i {
                        assert(token@[i as int] != ':');
                    }
                }
                assert(other@ =~= token@.take(i as int));
                assert(bayer@ =~= token@.skip(i + 1));
            }
            return (other, bayer);
        }
        i = i + 1;
    }
    (con, token)
}

/// A catalog key: constellation abbreviation and Bayer designation.
pub type Designation = (&'static str, &'static str);

pub open spec fn key_view(k: Designation) -> (Seq<char>, Seq<char>) {
    (k.0@, k.1@)
}

pub open spec fn keys_view(keys: Seq<Designation>) -> Seq<(Seq<char>, Seq<char>)> {
    keys.map_values(|k: Designation| key_view(k))
}

/// The catalog keys of one path's stars.
pub open spec fn path_keys(con: Seq<char>, path: Seq<Seq<char>>) -> Seq<(Seq<char>, Seq<char>)> {
    path.map_values(|t: Seq<char>| designation_parts(con, t))
}

/// The catalog keys of a figure's stars, path by path.
pub open spec fn figure_keys_view(f: FigureView) -> Seq<(Seq<char>, Seq<char>)> {
    f.paths.map_values(|p: Seq<Seq<char>>| path_keys(f.con, p)).flatten()
}

/// The catalog keys of all stars of all figures, figure by figure.
pub open spec fn all_figure_keys(figures: Seq<FigureView>) -> Seq<(Seq<char>, Seq<char>)> {
    figures.map_values(|f: FigureView| figure_keys_view(f)).flatten()
}

fn push_path_keys(con: &'static str, path: &Vec<&'static str>, out: &mut Vec<Designation>)
    ensures
        keys_view(final(out)@) == keys_view(old(out)@) + path_keys(con@, path.deep_view()),
{
    let ghost start = keys_view(out@);
    let mut j: usize = 0;
    while j < path.len()
        invariant
            j <= path.len(),
            keys_view(out@) == start + path_keys(con@, path.deep_view().take(j as int)),
        decreases path.len() - j,
    {
        let key = split_designation(con, path[j]);
        let ghost before = out@;
        out.push(key);
        proof {
            assert(path.deep_view().take(j + 1) =~= path.deep_view().take(j as int).push(path[j as int]@));
            assert(keys_view(out@) =~= keys_view(before).push(key_view(key)));
            assert(path_keys(con@, path.deep_view().take(j + 1)) =~= path_keys(con@, path.deep_view().take(j as int)).push(
                designation_parts(con@, path[j as int]@),
            ));
        }
        j = j + 1;
    }
    assert(path.deep_view().take(path.len() as int) =~= path.deep_view());
}

/// The catalog key of every star of every figure, in drawing order: figure by figure,
/// path by path.
pub fn figure_keys(figures: &Vec<Figure>) -> (keys: Vec<Designation>)
    ensures
        keys_view(keys@) == all_figure_keys(figures.deep_view()),
{
    let mut keys: Vec<Designation> = Vec::new();
    let mut i: usize = 0;
    while i < figures.len()
        invariant
            i <= figures.len(),
            keys_view(keys@) == all_figure_keys(figures.deep_view().take(i as int)),
        decreases figures.len() - i,
    {
        let figure = &figures[i];
        let ghost fig_start = keys_view(keys@);
        let ghost fv = figure.deep_view();
        let mut j: usize = 0;
        while j < figure.paths.len()
            invariant
                j <= figure.paths.len(),
                fv == figure.deep_view(),
                keys_view(keys@) == fig_start + fv.paths.take(j as int).map_values(
                    |p: Seq<Seq<char>>| path_keys(fv.con, p),
                ).flatten(),
            decreases figure.paths.len() - j,
        {
            let ghost before = keys_view(keys@);
            push_path_keys(figure.con, &figure.paths[j], &mut keys);
            proof {
                let f = |p: Seq<Seq<char>>| path_keys(fv.con, p);
                assert(fv.paths[j as int] == figure.paths@[j as int].deep_view());
                assert(fv.con == figure.con@);
                let prev = fv.paths.take(j as int).map_values(f);
                assert(fv.paths.take(j + 1).map_values(f) =~= prev.push(f(fv.paths[j as int])));
                prev.lemma_flatten_push(f(fv.paths[j as int]));
                assert(keys_view(keys@) =~= fig_start + (prev.flatten() + f(fv.paths[j as int])));
            }
            j = j + 1;
        }
        proof {
            assert(fv.paths.take(figure.paths.len() as int) =~= fv.paths);
            let g = |f: FigureView| figure_keys_view(f);
            let prev = figures.deep_view().take(i as int).map_values(g);
            assert(figures.deep_view()[i as int] == fv);
            assert(figures.deep_view().take(i + 1).map_values(g) =~= prev.push(g(fv)));
            prev.lemma_flatten_push(g(fv));
        }
        i = i + 1;
    }
    assert(figures.deep_view().take(figures.len() as int) =~= figures.deep_view());
    keys
}

/// Row `r` is the first row of `table` that names `key`.
pub open spec fn first_row_of(table: Seq<(Seq<char>, Seq<char>)>, key: (Seq<char>, Seq<char>), r: int) -> bool {
    &&& 0 <= r < table.len()
    &&& table[r] == key
    &&& forall|j: int| 0 <= j < r ==> table[j] != key
}

/// `hit` is where `key` is found in `table`: its first row, or nothing if no row names it.
pub open spec fn lookup_result(table: Seq<(Seq<char>, Seq<char>)>, key: (Seq<char>, Seq<char>), hit: Option<usize>) -> bool {
    match hit {
        Some(r) => first_row_of(table, key, r as int),
        None => forall|j: int| 0 <= j < table.len() ==> table[j] != key,
    }
}

pub open spec fn table_view(table: Seq<(String, String)>) -> Seq<(Seq<char>, Seq<char>)> {
    table.map_values(|row: (String, String)| (row.0@, row.1@))
}

/// Looks every designation up in a catalog given as its `(constellation, Bayer)`
/// columns: the catalog row of each key, in key order, or `None` when no row names it.
pub fn resolve_designations(keys: &Vec<Designation>, table: &Vec<(String, String)>) -> (rows: Vec<Option<usize>>)
    ensures
        rows.len() == keys.len(),
        forall|k: int| 0 <= k < keys.len() ==> #[trigger] lookup_result(table_view(table@), key_view(keys@[k]), rows@[k]),
{
    let mut rows: Vec<Option<usize>> = Vec::new();
    let mut k: usize = 0;
    while k < keys.len()
        invariant
            k <= keys.len(),
            rows.len() == k,
            forall|t: int| 0 <= t < k ==> #[trigger] lookup_result(table_view(table@), key_view(keys@[t]), rows@[t]),
        decreases keys.len() - k,
    {
        let con = keys[k].0.to_owned();
        let bayer = keys[k].1.to_owned();
        let ghost key = key_view(keys@[k as int]);
        let mut hit: Option<usize> = None;
        let mut r: usize = 0;
        while r < table.len()
            invariant_except_break
                hit is None,
            invariant
                r <= table.len(),
                con@ == key.0,
                bayer@ == key.1,
                forall|j: int| 0 <= j < r ==> table_view(table@)[j] != key,
            ensures
                lookup_result(table_view(table@), key, hit),
            decreases table.len() - r,
        {
            if table[r].0 == con && table[r].1 == bayer {
                hit = Some(r);
                break;
            }
            r = r + 1;
        }
        rows.push(hit);
        k = k + 1;
    }
    rows
}

/// What scanning a path's resolved stars has produced so far: the finished runs, and
/// the run still open.
pub open spec fn runs_scan<T>(hits: Seq<Option<T>>) -> (Seq<Seq<T>>, Seq<T>)
    decreases hits.len(),
{
    if hits.len() == 0 {
        (Seq::empty(), Seq::empty())
    } else {
        let (done, run) = runs_scan(hits.drop_last());
        match hits.last() {
            Some(d) => (done, run.push(d)),
            None => if run.len() > 1 { (done.push(run), Seq::empty()) } else { (done, Seq::empty()) },
        }
    }
}

/// The polylines a path is drawn as: its runs of resolved stars, split where a star is
/// missing, keeping only runs of at least two stars.
pub open spec fn resolved_runs<T>(hits: Seq<Option<T>>) -> Seq<Seq<T>> {
    let (done, run) = runs_scan(hits);
    if run.len() > 1 { done.push(run) } else { done }
}

/// The contents of a list of vectors.
pub open spec fn nested_view<T>(v: Seq<Vec<T>>) -> Seq<Seq<T>> {
    v.map_values(|x: Vec<T>| x@)
}

/// Splits a path of possibly unresolved stars into the polylines drawn for it, appending
/// them to `paths`. A gap where a star failed to resolve splits the path rather than
/// truncating it, so the rest of the figure still draws.
pub fn push_resolved_runs<T: Copy>(hits: &[Option<T>], paths: &mut Vec<Vec<T>>)
    ensures
        nested_view(final(paths)@) == nested_view(old(paths)@) + resolved_runs(hits@),
{
    let ghost start = paths@;
    let mut run: Vec<T> = Vec::new();
    let mut i: usize = 0;
    while i < hits.len()
        invariant
            i <= hits.len(),
            paths@.len() >= start.len(),
            forall|t: int| 0 <= t < start.len() ==> #[trigger] paths@[t] == start[t],
            nested_view(paths@.subrange(start.len() as int, paths@.len() as int)) == runs_scan(hits@.take(i as int)).0,
            run@ == runs_scan(hits@.take(i as int)).1,
        decreases hits.len() - i,
    {
        let ghost prefix = hits@.take(i as int);
        assert(hits@.take(i + 1).drop_last() =~= prefix);
        match hits[i] {
            Some(direction) => {
                run.push(direction);
            },
            None => {
                if run.len() > 1 {
                    let mut finished: Vec<T> = Vec::new();
                    std::mem::swap(&mut finished, &mut run);
                    let ghost before = paths@;
                    paths.push(finished);
                    assert(paths@.subrange(start.len() as int, paths@.len() as int) =~= before.subrange(
                        start.len() as int,
                        before.len() as int,
                    ).push(finished));
                } else {
                    run.clear();
                }
            },
        }
        i = i + 1;
    }
    assert(hits@.take(hits.len() as int) =~= hits@);
    if run.len() > 1 {
        let ghost before = paths@;
        paths.push(run);
        assert(paths@.subrange(start.len() as int, paths@.len() as int) =~= before.subrange(
            start.len() as int,
            before.len() as int,
        ).push(run));
    }
    assert(nested_view(paths@) =~= nested_view(start) + resolved_runs(hits@));
}

/// A figure with its stars resolved, ready to draw.
pub struct ResolvedFigure<T> {
    /// Name as a reader would say it.
    pub name: &'static str,
    /// IAU three-letter abbreviation.
    pub abbreviation: &'static str,
    /// Polylines of resolved stars. Stars the catalog cannot resolve break their path
    /// in two rather than dropping the whole figure.
    pub paths: Vec<Vec<T>>,
}

/// The polylines of a figure whose paths have the given stars, `hits` being the resolved
/// stars of all its paths one after another.
pub open spec fn figure_runs<T>(paths: Seq<Seq<Seq<char>>>, hits: Seq<Option<T>>) -> Seq<Seq<T>>
    decreases paths.len(),
{
    if paths.len() == 0 {
        Seq::empty()
    } else {
        let n = hits.len() - paths.last().len();
        figure_runs(paths.drop_last(), hits.take(n)) + resolved_runs(hits.skip(n))
    }
}

/// Name, abbreviation and polylines of each figure, given the resolved stars of all
/// figures one after another.
pub open spec fn resolved_figures<T>(figures: Seq<FigureView>, hits: Seq<Option<T>>) -> Seq<(Seq<char>, Seq<char>, Seq<Seq<T>>)>
    decreases figures.len(),
{
    if figures.len() == 0 {
        Seq::empty()
    } else {
        let f = figures.last();
        let n = hits.len() - figure_keys_view(f).len();
        resolved_figures(figures.drop_last(), hits.take(n)).push((f.name, f.con, figure_runs(f.paths, hits.skip(n))))
    }
}

pub open spec fn resolved_view<T>(r: ResolvedFigure<T>) -> (Seq<char>, Seq<char>, Seq<Seq<T>>) {
    (r.name@, r.abbreviation@, nested_view(r.paths@))
}

proof fn lemma_path_keys_len(con: Seq<char>, paths: Seq<Seq<Seq<char>>>, j: int)
    requires
        0 <= j < paths.len(),
    ensures
        paths.take(j + 1).map_values(|p: Seq<Seq<char>>| path_keys(con, p)).flatten().len() == paths.take(j).map_values(
            |p: Seq<Seq<char>>| path_keys(con, p),
        ).flatten().len() + paths[j].len(),
{
    let f = |p: Seq<Seq<char>>| path_keys(con, p);
    let prev = paths.take(j).map_values(f);
    assert(paths.take(j + 1).map_values(f) =~= prev.push(f(paths[j])));
    prev.lemma_flatten_push(f(paths[j]));
}

/// Every figure with its stars resolved: `resolved` holds, for every key of
/// [`figure_keys`] in order, the star found for it or `None`.
pub fn resolve_figures<T: Copy>(figures: &Vec<Figure>, resolved: &Vec<Option<T>>) -> (out: Vec<ResolvedFigure<T>>)
    requires
        resolved.len() == all_figure_keys(figures.deep_view()).len(),
    ensures
        out@.map_values(|r: ResolvedFigure<T>| resolved_view(r)) == resolved_figures(figures.deep_view(), resolved@),
{
    let ghost fs = figures.deep_view();
    let mut out: Vec<ResolvedFigure<T>> = Vec::with_capacity(figures.len());
    let mut next: usize = 0;
    let mut i: usize = 0;
    while i < figures.len()
        invariant
            fs == figures.deep_view(),
            i <= figures.len(),
            resolved.len() == all_figure_keys(fs).len(),
            next == all_figure_keys(fs.take(i as int)).len(),
            next <= resolved.len(),
            out@.map_values(|r: ResolvedFigure<T>| resolved_view(r)) == resolved_figures(fs.take(i as int), resolved@.take(next as int)),
        decreases figures.len() - i,
    {
        let figure = &figures[i];
        let ghost fv = fs[i as int];
        let ghost fig_start = next;
        proof {
            let g = |f: FigureView| figure_keys_view(f);
            let prev = fs.take(i as int).map_values(g);
            assert(fs.take(i + 1).map_values(g) =~= prev.push(g(fv)));
            prev.lemma_flatten_push(g(fv));
            assert(fs.take(i + 1).map_values(g).flatten().len() <= fs.map_values(g).flatten().len()) by {
                let all = fs.map_values(g);
                assert(fs.map_values(g) =~= fs.take(i + 1).map_values(g) + fs.skip(i + 1).map_values(g));
                lemma_flatten_concat(fs.take(i + 1).map_values(g), fs.skip(i + 1).map_values(g));
            }
        }
        let mut paths: Vec<Vec<T>> = Vec::new();
        let mut j: usize = 0;
        while j < figure.paths.len()
            invariant
                fv == figure.deep_view(),
                j <= figure.paths.len(),
                fig_start <= next,
                next == fig_start + fv.paths.take(j as int).map_values(|p: Seq<Seq<char>>| path_keys(fv.con, p)).flatten().len(),
                fig_start + figure_keys_view(fv).len() <= resolved.len(),
                nested_view(paths@) == figure_runs(fv.paths.take(j as int), resolved@.subrange(fig_start as int, next as int)),
            decreases figure.paths.len() - j,
        {
            proof {
                lemma_path_keys_len(fv.con, fv.paths, j as int);
                assert(fv.paths.take(j + 1).map_values(|p: Seq<Seq<char>>| path_keys(fv.con, p)).flatten().len() <= figure_keys_view(fv).len()) by {
                    let f = |p: Seq<Seq<char>>| path_keys(fv.con, p);
                    assert(fv.paths.map_values(f) =~= fv.paths.take(j + 1).map_values(f) + fv.paths.skip(j + 1).map_values(f));
                    lemma_flatten_concat(fv.paths.take(j + 1).map_values(f), fv.paths.skip(j + 1).map_values(f));
                }
                assert(fv.paths[j as int].len() == figure.paths@[j as int]@.len());
            }
            let start = next;
            next = next + figure.paths[j].len();
            push_resolved_runs(&resolved.as_slice()[start..next], &mut paths);
            proof {
                let hits = resolved@.subrange(fig_start as int, next as int);
                let ps = fv.paths.take(j + 1);
                assert(ps.drop_last() =~= fv.paths.take(j as int));
                assert(ps.last() == fv.paths[j as int]);
                let n = hits.len() - ps.last().len();
                assert(hits.take(n) =~= resolved@.subrange(fig_start as int, start as int));
                assert(hits.skip(n) =~= resolved@.subrange(start as int, next as int));
            }
            j = j + 1;
        }
        proof {
            assert(fv.paths.take(figure.paths.len() as int) =~= fv.paths);
        }
        out.push(ResolvedFigure { name: figure.name, abbreviation: figure.con, paths });
        proof {
            let fsi = fs.take(i + 1);
            assert(fsi.drop_last() =~= fs.take(i as int));
            assert(fsi.last() == fv);
            let hits = resolved@.take(next as int);
            let n = hits.len() - figure_keys_view(fv).len();
            assert(n == fig_start);
            assert(hits.take(n) =~= resolved@.take(fig_start as int));
            assert(hits.skip(n) =~= resolved@.subrange(fig_start as int, next as int));
            let rv = |r: ResolvedFigure<T>| resolved_view(r);
            assert(out@.map_values(rv) =~= resolved_figures(fs.take(i as int), resolved@.take(fig_start as int)).push(
                (fv.name, fv.con, figure_runs(fv.paths, resolved@.subrange(fig_start as int, next as int))),
            ));
        }
        i = i + 1;
    }
    proof {
        assert(fs.take(figures.len() as int) =~= fs);
        assert(resolved@.take(next as int) =~= resolved@);
    }
    out
}

/// A polyline as a line list: each pair of consecutive stars gives a segment of two
/// vertices.
pub open spec fn path_segments<T>(path: Seq<T>) -> Seq<T> {
    if path.len() < 2 {
        Seq::empty()
    } else {
        Seq::new((2 * (path.len() - 1)) as nat, |k: int| path[k / 2 + k % 2])
    }
}

/// All segments of all polylines of all figures, in drawing order.
pub open spec fn all_segments<T>(figures: Seq<(Seq<char>, Seq<char>, Seq<Seq<T>>)>) -> Seq<T> {
    figures.map_values(
        |f: (Seq<char>, Seq<char>, Seq<Seq<T>>)| f.2.map_values(|p: Seq<T>| path_segments(p)).flatten(),
    ).flatten()
}

fn push_path_segments<T: Copy>(path: &Vec<T>, out: &mut Vec<T>)
    ensures
        final(out)@ == old(out)@ + path_segments(path@),
{
    let ghost start = out@;
    if path.len() < 2 {
        assert(out@ =~= start + path_segments(path@));
        return;
    }
    let mut w: usize = 0;
    while w + 1 < path.len()
        invariant
            2 <= path.len(),
            w + 1 <= path.len(),
            out@.len() == start.len() + 2 * w,
            forall|t: int| 0 <= t < start.len() ==> #[trigger] out@[t] == start[t],
            forall|k: int| 0 <= k < 2 * w ==> #[trigger] out@[start.len() + k] == path@[k / 2 + k % 2],
        decreases path.len() - w,
    {
        out.push(path[w]);
        out.push(path[w + 1]);
        proof {
            assert forall|k: int| 0 <= k < 2 * (w + 1) implies #[trigger] out@[start.len() + k] == path@[k / 2 + k % 2] by {
                if k >= 2 * w {
                    assert(k / 2 == w);
                }
            }
        }
        w = w + 1;
    }
    assert(out@ =~= start + path_segments(path@)) by {
        assert forall|k: int| start.len() <= k < out@.len() implies out@[k] == (start + path_segments(path@))[k] by {
            let j = k - start.len();
            assert(out@[start.len() + j] == path@[j / 2 + j % 2]);
        }
    }
}

/// Flattens the figures into line-list vertices: two per segment.
pub fn constellation_segments<T: Copy>(figures: &Vec<ResolvedFigure<T>>) -> (out: Vec<T>)
    ensures
        out@ == all_segments(figures@.map_values(|r: ResolvedFigure<T>| resolved_view(r))),
{
    let ghost fs = figures@.map_values(|r: ResolvedFigure<T>| resolved_view(r));
    let ghost g = |f: (Seq<char>, Seq<char>, Seq<Seq<T>>)| f.2.map_values(|p: Seq<T>| path_segments(p)).flatten();
    let mut out: Vec<T> = Vec::new();
    let mut i: usize = 0;
    while i < figures.len()
        invariant
            i <= figures.len(),
            fs == figures@.map_values(|r: ResolvedFigure<T>| resolved_view(r)),
            g == (|f: (Seq<char>, Seq<char>, Seq<Seq<T>>)| f.2.map_values(|p: Seq<T>| path_segments(p)).flatten()),
            out@ == fs.take(i as int).map_values(g).flatten(),
        decreases figures.len() - i,
    {
        let paths = &figures[i].paths;
        let ghost fig_start = out@;
        let ghost pv = nested_view(paths@);
        let mut j: usize = 0;
        while j < paths.len()
            invariant
                j <= paths.len(),
                pv == nested_view(paths@),
                out@ == fig_start + pv.take(j as int).map_values(|p: Seq<T>| path_segments(p)).flatten(),
            decreases paths.len() - j,
        {
            push_path_segments(&paths[j], &mut out);
            proof {
                let h = |p: Seq<T>| path_segments(p);
                let prev = pv.take(j as int).map_values(h);
                assert(pv.take(j + 1).map_values(h) =~= prev.push(h(pv[j as int])));
                prev.lemma_flatten_push(h(pv[j as int]));
                assert(out@ =~= fig_start + (prev.flatten() + h(pv[j as int])));
            }
            j = j + 1;
        }
        proof {
            assert(pv.take(paths.len() as int) =~= pv);
            let prev = fs.take(i as int).map_values(g);
            assert(fs[i as int].2 == pv);
            assert(fs.take(i + 1).map_values(g) =~= prev.push(g(fs[i as int])));
            prev.lemma_flatten_push(g(fs[i as int]));
        }
        i = i + 1;
    }
    assert(fs.take(figures.len() as int) =~= fs);
    out
}

/// The values of a sequence of resolved entries that are all present.
pub open spec fn values<T>(hits: Seq<Option<T>>) -> Seq<T> {
    hits.map_values(|h: Option<T>| h->Some_0)
}

pub open spec fn all_resolved<T>(hits: Seq<Option<T>>) -> bool {
    forall|i: int| 0 <= i < hits.len() ==> (#[trigger] hits[i]) is Some
}

proof fn lemma_scan_resolved_suffix<T>(x: Seq<Option<T>>, y: Seq<Option<T>>)
    requires
        all_resolved(y),
    ensures
        runs_scan(x + y) == (runs_scan(x).0, runs_scan(x).1 + values(y)),
    decreases y.len(),
{
    if y.len() == 0 {
        assert(x + y =~= x);
        assert(runs_scan(x).1 + values(y) =~= runs_scan(x).1);
    } else {
        let yp = y.drop_last();
        assert(all_resolved(yp)) by {
            assert forall|i: int| 0 <= i < yp.len() implies (#[trigger] yp[i]) is Some by {
                assert(yp[i] == y[i]);
            }
        }
        lemma_scan_resolved_suffix(x, yp);
        assert((x + y).drop_last() =~= x + yp);
        assert(y.last() == y[y.len() - 1]);
        assert(values(y) =~= values(yp).push(y.last()->Some_0));
    }
}

/// `v` is the star resolved for one of the keys.
pub open spec fn is_resolved_star<T>(hits: Seq<Option<T>>, v: T) -> bool {
    exists|k: int| 0 <= k < hits.len() && hits[k] == Some(v)
}

/// Every element of every sequence in `runs` is a resolved star of `hits`.
pub open spec fn runs_drawn_from<T>(runs: Seq<Seq<T>>, hits: Seq<Option<T>>) -> bool {
    forall|r: int, j: int|
        0 <= r < runs.len() && 0 <= j < runs[r].len() ==> is_resolved_star(hits, #[trigger] runs[r][j])
}

proof fn lemma_resolved_in_prefix<T>(p: Seq<Option<T>>, h: Seq<Option<T>>, v: T)
    requires
        p.len() <= h.len(),
        forall|k: int| 0 <= k < p.len() ==> p[k] == h[k],
        is_resolved_star(p, v),
    ensures
        is_resolved_star(h, v),
{
    let k = choose|k: int| 0 <= k < p.len() && p[k] == Some(v);
    assert(h[k] == Some(v));
}

proof fn lemma_resolved_in_suffix<T>(h: Seq<Option<T>>, n: int, v: T)
    requires
        0 <= n <= h.len(),
        is_resolved_star(h.skip(n), v),
    ensures
        is_resolved_star(h, v),
{
    let k = choose|k: int| 0 <= k < h.skip(n).len() && h.skip(n)[k] == Some(v);
    assert(h[k + n] == Some(v));
}

proof fn lemma_scan_drawn<T>(hits: Seq<Option<T>>)
    ensures
        runs_drawn_from(runs_scan(hits).0, hits),
        forall|j: int| 0 <= j < runs_scan(hits).1.len() ==> is_resolved_star(hits, #[trigger] runs_scan(hits).1[j]),
    decreases hits.len(),
{
    if hits.len() > 0 {
        let p = hits.drop_last();
        lemma_scan_drawn(p);
        let (done, run) = runs_scan(p);
        assert forall|x: T| is_resolved_star(p, x) implies is_resolved_star(hits, x) by {
            lemma_resolved_in_prefix(p, hits, x);
        }
        let (done2, run2) = runs_scan(hits);
        assert forall|r: int, j: int| 0 <= r < done2.len() && 0 <= j < done2[r].len() implies is_resolved_star(
            hits,
            #[trigger] done2[r][j],
        ) by {
            if r < done.len() {
                assert(done2[r] == done[r]);
                assert(is_resolved_star(p, done[r][j]));
            } else {
                assert(done2[r] == run);
                assert(is_resolved_star(p, run[j]));
            }
        }
        assert forall|j: int| 0 <= j < run2.len() implies is_resolved_star(hits, #[trigger] run2[j]) by {
            if j < run.len() {
                assert(run2[j] == run[j]);
                assert(is_resolved_star(p, run[j]));
            } else {
                assert(hits[hits.len() - 1] == Some(run2[j]));
            }
        }
    }
}

proof fn lemma_resolved_runs_drawn<T>(hits: Seq<Option<T>>)
    ensures
        runs_drawn_from(resolved_runs(hits), hits),
{
    lemma_scan_drawn(hits);
    let (done, run) = runs_scan(hits);
    let rr = resolved_runs(hits);
    assert forall|r: int, j: int| 0 <= r < rr.len() && 0 <= j < rr[r].len() implies is_resolved_star(
        hits,
        #[trigger] rr[r][j],
    ) by {
        if r < done.len() {
            assert(rr[r] == done[r]);
        } else {
            assert(rr[r] == run);
        }
    }
}

proof fn lemma_runs_drawn_prefix<T>(runs: Seq<Seq<T>>, h: Seq<Option<T>>, n: int)
    requires
        0 <= n <= h.len(),
        runs_drawn_from(runs, h.take(n)),
    ensures
        runs_drawn_from(runs, h),
{
    assert forall|r: int, j: int| 0 <= r < runs.len() && 0 <= j < runs[r].len() implies is_resolved_star(
        h,
        #[trigger] runs[r][j],
    ) by {
        lemma_resolved_in_prefix(h.take(n), h, runs[r][j]);
    }
}

proof fn lemma_runs_drawn_suffix<T>(runs: Seq<Seq<T>>, h: Seq<Option<T>>, n: int)
    requires
        0 <= n <= h.len(),
        runs_drawn_from(runs, h.skip(n)),
    ensures
        runs_drawn_from(runs, h),
{
    assert forall|r: int, j: int| 0 <= r < runs.len() && 0 <= j < runs[r].len() implies is_resolved_star(
        h,
        #[trigger] runs[r][j],
    ) by {
        lemma_resolved_in_suffix(h, n, runs[r][j]);
    }
}

proof fn lemma_runs_drawn_concat<T>(a: Seq<Seq<T>>, b: Seq<Seq<T>>, h: Seq<Option<T>>)
    requires
        runs_drawn_from(a, h),
        runs_drawn_from(b, h),
    ensures
        runs_drawn_from(a + b, h),
{
    let c = a + b;
    assert forall|r: int, j: int| 0 <= r < c.len() && 0 <= j < c[r].len() implies is_resolved_star(
        h,
        #[trigger] c[r][j],
    ) by {
        if r < a.len() {
            assert(c[r] == a[r]);
        } else {
            assert(c[r] == b[r - a.len()]);
        }
    }
}

proof fn lemma_figure_runs_drawn<T>(con: Seq<char>, paths: Seq<Seq<Seq<char>>>, hits: Seq<Option<T>>)
    requires
        hits.len() == paths.map_values(|p: Seq<Seq<char>>| path_keys(con, p)).flatten().len(),
    ensures
        runs_drawn_from(figure_runs(paths, hits), hits),
    decreases paths.len(),
{
    if paths.len() > 0 {
        let m = paths.len() - 1;
        lemma_path_keys_len(con, paths, m);
        assert(paths.take(m + 1) =~= paths);
        assert(paths.take(m) =~= paths.drop_last());
        let n = hits.len() - paths.last().len();
        lemma_figure_runs_drawn(con, paths.drop_last(), hits.take(n));
        lemma_runs_drawn_prefix(figure_runs(paths.drop_last(), hits.take(n)), hits, n);
        lemma_resolved_runs_drawn(hits.skip(n));
        lemma_runs_drawn_suffix(resolved_runs(hits.skip(n)), hits, n);
        lemma_runs_drawn_concat(figure_runs(paths.drop_last(), hits.take(n)), resolved_runs(hits.skip(n)), hits);
    }
}

proof fn lemma_resolved_figures_drawn<T>(figures: Seq<FigureView>, hits: Seq<Option<T>>)
    requires
        hits.len() == all_figure_keys(figures).len(),
    ensures
        forall|f: int|
            0 <= f < resolved_figures(figures, hits).len() ==> runs_drawn_from(
                (#[trigger] resolved_figures(figures, hits)[f]).2,
                hits,
            ),
        resolved_figures(figures, hits).len() == figures.len(),
    decreases figures.len(),
{
    if figures.len() > 0 {
        let fl = figures.last();
        let g = |f: FigureView| figure_keys_view(f);
        let prev = figures.drop_last().map_values(g);
        assert(figures.map_values(g) =~= prev.push(g(fl)));
        prev.lemma_flatten_push(g(fl));
        let n = hits.len() - figure_keys_view(fl).len();
        lemma_resolved_figures_drawn(figures.drop_last(), hits.take(n));
        lemma_figure_runs_drawn(fl.con, fl.paths, hits.skip(n));
        lemma_runs_drawn_suffix(figure_runs(fl.paths, hits.skip(n)), hits, n);
        let before = resolved_figures(figures.drop_last(), hits.take(n));
        let all = resolved_figures(figures, hits);
        assert forall|f: int| 0 <= f < all.len() implies runs_drawn_from((#[trigger] all[f]).2, hits) by {
            if f < before.len() {
                assert(all[f] == before[f]);
                lemma_runs_drawn_prefix(before[f].2, hits, n);
            }
        }
    }
}

proof fn lemma_flatten_member<A>(s: Seq<Seq<A>>, i: int)
    requires
        0 <= i < s.flatten().len(),
    ensures
        exists|a: int, b: int| 0 <= a < s.len() && 0 <= b < s[a].len() && s.flatten()[i] == #[trigger] s[a][b],
    decreases s.len(),
{
    if s.len() > 0 {
        let rest = s.drop_first();
        if i < s.first().len() {
            assert(s.flatten()[i] == s[0][i]);
        } else {
            lemma_flatten_member(rest, i - s.first().len());
            let (a, b) = choose|a: int, b: int| 0 <= a < rest.len() && 0 <= b < rest[a].len() && rest.flatten()[i
                - s.first().len()] == #[trigger] rest[a][b];
            assert(s[a + 1] == rest[a]);
            assert(s.flatten()[i] == s[a + 1][b]);
        }
    }
}

/// Law: every vertex of the figures' line list lies on a star the catalog resolved:
/// a figure never draws to a point that is not one of the stars looked up for it.
pub proof fn law_every_vertex_is_a_resolved_star<T>(figures: Seq<FigureView>, hits: Seq<Option<T>>)
    requires
        hits.len() == all_figure_keys(figures).len(),
    ensures
        forall|i: int|
            0 <= i < all_segments(resolved_figures(figures, hits)).len() ==> is_resolved_star(
                hits,
                #[trigger] all_segments(resolved_figures(figures, hits))[i],
            ),
{
    let rf = resolved_figures(figures, hits);
    lemma_resolved_figures_drawn(figures, hits);
    let outer = |f: (Seq<char>, Seq<char>, Seq<Seq<T>>)| f.2.map_values(|p: Seq<T>| path_segments(p)).flatten();
    assert forall|i: int| 0 <= i < all_segments(rf).len() implies is_resolved_star(
        hits,
        #[trigger] all_segments(rf)[i],
    ) by {
        let per_figure = rf.map_values(outer);
        lemma_flatten_member(per_figure, i);
        let (a, b) = choose|a: int, b: int| 0 <= a < per_figure.len() && 0 <= b < per_figure[a].len()
            && per_figure.flatten()[i] == #[trigger] per_figure[a][b];
        let fig = rf[a];
        assert(runs_drawn_from(fig.2, hits));
        let segs = fig.2.map_values(|p: Seq<T>| path_segments(p));
        assert(per_figure[a] == segs.flatten());
        lemma_flatten_member(segs, b);
        let (c, d) = choose|c: int, d: int| 0 <= c < segs.len() && 0 <= d < segs[c].len() && segs.flatten()[b]
            == #[trigger] segs[c][d];
        let path = fig.2[c];
        assert(segs[c] == path_segments(path));
        assert(path.len() >= 2);
        assert(0 <= d / 2 + d % 2 < path.len());
        assert(segs[c][d] == path[d / 2 + d % 2]);
        assert(is_resolved_star(hits, fig.2[c][d / 2 + d % 2]));
    }
}

/// Law: every polyline drawn for a path joins at least two stars.
pub proof fn law_runs_have_two_stars<T>(hits: Seq<Option<T>>)
    ensures
        forall|r: int| 0 <= r < resolved_runs(hits).len() ==> (#[trigger] resolved_runs(hits)[r]).len() >= 2,
    decreases hits.len(),
{
    lemma_scan_runs_long(hits);
}

proof fn lemma_scan_runs_long<T>(hits: Seq<Option<T>>)
    ensures
        forall|r: int| 0 <= r < runs_scan(hits).0.len() ==> (#[trigger] runs_scan(hits).0[r]).len() >= 2,
    decreases hits.len(),
{
    if hits.len() > 0 {
        let p = hits.drop_last();
        lemma_scan_runs_long(p);
        let (done, run) = runs_scan(p);
        assert forall|r: int| 0 <= r < runs_scan(hits).0.len() implies (#[trigger] runs_scan(hits).0[r]).len() >= 2 by {
            if r < done.len() {
                assert(runs_scan(hits).0[r] == done[r]);
            }
        }
    }
}

/// Law: a path whose stars all resolve is drawn whole, as one polyline.
pub proof fn law_resolved_path_drawn_whole<T>(hits: Seq<Option<T>>)
    requires
        all_resolved(hits),
        hits.len() >= 2,
    ensures
        resolved_runs(hits) == seq![values(hits)],
{
    lemma_scan_resolved_suffix(Seq::<Option<T>>::empty(), hits);
    assert(Seq::<Option<T>>::empty() + hits =~= hits);
    assert(Seq::<T>::empty() + values(hits) =~= values(hits));
}

/// Law: a star that fails to resolve splits its path in two rather than dropping it:
/// the resolved stars on each side are still drawn.
pub proof fn law_missing_star_splits_path<T>(a: Seq<Option<T>>, b: Seq<Option<T>>)
    requires
        all_resolved(a),
        all_resolved(b),
        a.len() >= 2,
        b.len() >= 2,
    ensures
        resolved_runs(a + seq![None] + b) == seq![values(a), values(b)],
{
    let e = Seq::<Option<T>>::empty();
    lemma_scan_resolved_suffix(e, a);
    assert(e + a =~= a);
    assert(Seq::<T>::empty() + values(a) =~= values(a));
    let an = a + seq![None];
    assert(an.drop_last() =~= a);
    assert(runs_scan(an) == (seq![values(a)], Seq::<T>::empty()));
    lemma_scan_resolved_suffix(an, b);
    assert(Seq::<T>::empty() + values(b) =~= values(b));
}

/// Law: the segment list has two vertices per segment, and each segment joins two
/// consecutive stars of one polyline.
pub proof fn law_segments_pair_up<T>(path: Seq<T>)
    ensures
        path_segments(path).len() % 2 == 0,
        forall|m: int| 0 <= m < path_segments(path).len() / 2 ==> path_segments(path)[2 * m] == path[m]
            && #[trigger] path_segments(path)[2 * m + 1] == path[m + 1],
{
    if path.len() >= 2 {
        assert forall|m: int| 0 <= m < path_segments(path).len() / 2 implies path_segments(path)[2 * m] == path[m]
            && #[trigger] path_segments(path)[2 * m + 1] == path[m + 1] by {
            assert((2 * m) / 2 == m && (2 * m) % 2 == 0);
            assert((2 * m + 1) / 2 == m && (2 * m + 1) % 2 == 1);
        }
    }
}

proof fn lemma_flatten_even<A>(s: Seq<Seq<A>>)
    requires
        forall|a: int| 0 <= a < s.len() ==> (#[trigger] s[a]).len() % 2 == 0,
    ensures
        s.flatten().len() % 2 == 0,
    decreases s.len(),
{
    if s.len() > 0 {
        let rest = s.drop_first();
        assert forall|a: int| 0 <= a < rest.len() implies (#[trigger] rest[a]).len() % 2 == 0 by {
            assert(rest[a] == s[a + 1]);
        }
        lemma_flatten_even(rest);
        assert(s[0].len() % 2 == 0);
    }
}

/// Law: the figures' line list is made of whole segments: it has an even number of
/// vertices, whatever the figures.
pub proof fn law_line_list_pairs<T>(figures: Seq<(Seq<char>, Seq<char>, Seq<Seq<T>>)>)
    ensures
        all_segments(figures).len() % 2 == 0,
{
    let outer = |f: (Seq<char>, Seq<char>, Seq<Seq<T>>)| f.2.map_values(|p: Seq<T>| path_segments(p)).flatten();
    let per_figure = figures.map_values(outer);
    assert forall|a: int| 0 <= a < per_figure.len() implies (#[trigger] per_figure[a]).len() % 2 == 0 by {
        let segs = figures[a].2.map_values(|p: Seq<T>| path_segments(p));
        assert forall|c: int| 0 <= c < segs.len() implies (#[trigger] segs[c]).len() % 2 == 0 by {
            law_segments_pair_up(figures[a].2[c]);
        }
        lemma_flatten_even(segs);
    }
    lemma_flatten_even(per_figure);
}

/// The lines of a path: each pair of consecutive stars, in order.
pub open spec fn path_lines(path: Seq<Seq<char>>) -> Seq<(Seq<char>, Seq<char>)> {
    if path.len() < 2 {
        Seq::empty()
    } else {
        Seq::new((path.len() - 1) as nat, |k: int| (path[k], path[k + 1]))
    }
}

/// The lines of all paths of a figure, path by path.
pub open spec fn figure_lines_of(paths: Seq<Seq<Seq<char>>>) -> Seq<(Seq<char>, Seq<char>)>
    decreases paths.len(),
{
    if paths.len() == 0 {
        Seq::empty()
    } else {
        path_lines(paths[0]) + figure_lines_of(paths.drop_first())
    }
}

/// The stick lines of the drawn constellations, each joining two stars named by their
/// designations (`"And:Alp"` for a star of a neighbouring constellation): name,
/// abbreviation, and the lines in drawing order. Orion, for one, joins its shoulders
/// Betelgeuse (Alp) and Bellatrix (Gam), runs down the belt Mintaka (Del), Alnilam (Eps)
/// and Alnitak (Zet), and reaches Rigel (Bet), Saiph (Kap) and the head Meissa (Lam).
pub open spec fn star_lines() -> Seq<(Seq<char>, Seq<char>, Seq<(Seq<char>, Seq<char>)>)> {
    seq![
        ("Ursa Major"@, "UMa"@, seq![("Eta"@, "Zet"@), ("Zet"@, "Eps"@), ("Eps"@, "Del"@), ("Del"@, "Gam"@), ("Gam"@, "Bet"@), ("Bet"@, "Alp"@), ("Alp"@, "Del"@)]),
        ("Ursa Minor"@, "UMi"@, seq![("Alp"@, "Del"@), ("Del"@, "Eps"@), ("Eps"@, "Zet"@), ("Zet"@, "Bet"@), ("Bet"@, "Gam"@), ("Gam"@, "Eta"@), ("Eta"@, "Zet"@)]),
        ("Cassiopeia"@, "Cas"@, seq![("Bet"@, "Alp"@), ("Alp"@, "Gam"@), ("Gam"@, "Del"@), ("Del"@, "Eps"@)]),
        ("Orion"@, "Ori"@, seq![("Alp"@, "Zet"@), ("Zet"@, "Kap"@), ("Gam"@, "Del"@), ("Del"@, "Bet"@), ("Del"@, "Eps"@), ("Eps"@, "Zet"@), ("Alp"@, "Gam"@), ("Lam"@, "Alp"@), ("Lam"@, "Gam"@)]),
        ("Canis Major"@, "CMa"@, seq![("Bet"@, "Alp"@), ("Alp"@, "Del"@), ("Del"@, "Eta"@), ("Del"@, "Eps"@), ("Eps"@, "Zet"@)]),
        ("Canis Minor"@, "CMi"@, seq![("Alp"@, "Bet"@)]),
        ("Taurus"@, "Tau"@, seq![("Bet"@, "Eps"@), ("Eps"@, "Alp"@), ("Alp"@, "The-2"@), ("The-2"@, "Gam"@), ("Zet"@, "Alp"@)]),
        ("Gemini"@, "Gem"@, seq![("Alp"@, "Tau"@), ("Tau"@, "Eps"@), ("Eps"@, "Mu"@), ("Mu"@, "Eta"@), ("Bet"@, "Ups"@), ("Ups"@, "Del"@), ("Del"@, "Xi"@), ("Del"@, "Gam"@), ("Alp"@, "Bet"@)]),
        ("Leo"@, "Leo"@, seq![("Eps"@, "Mu"@), ("Mu"@, "Zet"@), ("Zet"@, "Gam-1"@), ("Gam-1"@, "Eta"@), ("Eta"@, "Alp"@), ("Alp"@, "The"@), ("The"@, "Bet"@), ("The"@, "Del"@), ("Del"@, "Gam-1"@)]),
        ("Virgo"@, "Vir"@, seq![("Alp"@, "The"@), ("The"@, "Gam"@), ("Gam"@, "Eta"@), ("Eta"@, "Bet"@), ("Gam"@, "Del"@), ("Del"@, "Eps"@)]),
        ("Bootes"@, "Boo"@, seq![("Alp"@, "Eps"@), ("Eps"@, "Del"@), ("Del"@, "Bet"@), ("Bet"@, "Gam"@), ("Gam"@, "Rho"@), ("Rho"@, "Alp"@), ("Alp"@, "Eta"@)]),
        ("Scorpius"@, "Sco"@, seq![("Bet-1"@, "Del"@), ("Del"@, "Pi"@), ("Pi"@, "Sig"@), ("Sig"@, "Alp"@), ("Alp"@, "Tau"@), ("Tau"@, "Eps"@), ("Eps"@, "Mu-1"@), ("Mu-1"@, "Zet-2"@), ("Zet-2"@, "Eta"@), ("Eta"@, "The"@), ("The"@, "Iot-1"@), ("Iot-1"@, "Kap"@), ("Kap"@, "Ups"@), ("Ups"@, "Lam"@)]),
        ("Sagittarius"@, "Sgr"@, seq![("Gam-2"@, "Del"@), ("Del"@, "Eps"@), ("Eps"@, "Zet"@), ("Zet"@, "Tau"@), ("Tau"@, "Sig"@), ("Sig"@, "Phi"@), ("Phi"@, "Del"@), ("Phi"@, "Lam"@), ("Lam"@, "Del"@)]),
        ("Cygnus"@, "Cyg"@, seq![("Alp"@, "Gam"@), ("Gam"@, "Bet-1"@), ("Del"@, "Gam"@), ("Gam"@, "Eps"@)]),
        ("Lyra"@, "Lyr"@, seq![("Alp"@, "Zet-1"@), ("Zet-1"@, "Bet"@), ("Bet"@, "Gam"@), ("Gam"@, "Zet-1"@)]),
        ("Aquila"@, "Aql"@, seq![("Bet"@, "Alp"@), ("Alp"@, "Gam"@), ("Gam"@, "Del"@), ("Del"@, "Lam"@), ("Zet"@, "Del"@)]),
        ("Crux"@, "Cru"@, seq![("Alp-1"@, "Gam"@), ("Bet"@, "Del"@)]),
        ("Perseus"@, "Per"@, seq![("Eta"@, "Gam"@), ("Gam"@, "Alp"@), ("Alp"@, "Del"@), ("Del"@, "Eps"@), ("Eps"@, "Zet"@), ("Alp"@, "Bet"@), ("Bet"@, "Rho"@)]),
        ("Andromeda"@, "And"@, seq![("Alp"@, "Del"@), ("Del"@, "Bet"@), ("Bet"@, "Gam-1"@)]),
        ("Pegasus"@, "Peg"@, seq![("And:Alp"@, "Bet"@), ("Bet"@, "Alp"@), ("Alp"@, "Gam"@), ("Gam"@, "And:Alp"@), ("Alp"@, "The"@), ("The"@, "Eps"@), ("Bet"@, "Eta"@)]),
        ("Auriga"@, "Aur"@, seq![("Alp"@, "Bet"@), ("Bet"@, "The"@), ("The"@, "Tau:Bet"@), ("Tau:Bet"@, "Iot"@), ("Iot"@, "Eps"@), ("Eps"@, "Alp"@)]),
    ]
}

/// Law: the figure table draws exactly the stick lines of the listed constellations:
/// figure `i` has the name and abbreviation of entry `i` and, walking its paths, joins
/// exactly that entry's pairs of stars, in order.
pub proof fn law_figures_draw_their_lines()
    ensures
        figure_table_view().len() == star_lines().len(),
        forall|i: int|
            0 <= i < figure_table_view().len() ==> (#[trigger] figure_table_view()[i]).name == star_lines()[i].0
                && figure_table_view()[i].con == star_lines()[i].1
                && figure_lines_of(figure_table_view()[i].paths) == star_lines()[i].2,
{
    let tv = figure_table_view();
    assert forall|i: int| 0 <= i < tv.len() implies (#[trigger] tv[i]).name == star_lines()[i].0 && tv[i].con
        == star_lines()[i].1 && figure_lines_of(tv[i].paths) == star_lines()[i].2 by {
        if i == 0 {
            reveal_with_fuel(figure_lines_of, 2);
            assert(path_lines(tv[0].paths[0]) =~= seq![("Eta"@, "Zet"@), ("Zet"@, "Eps"@), ("Eps"@, "Del"@), ("Del"@, "Gam"@), ("Gam"@, "Bet"@), ("Bet"@, "Alp"@), ("Alp"@, "Del"@)]);
            assert(figure_lines_of(tv[0].paths) =~= star_lines()[0].2);
        } else if i == 1 {
            reveal_with_fuel(figure_lines_of, 2);
            assert(path_lines(tv[1].paths[0]) =~= seq![("Alp"@, "Del"@), ("Del"@, "Eps"@), ("Eps"@, "Zet"@), ("Zet"@, "Bet"@), ("Bet"@, "Gam"@), ("Gam"@, "Eta"@), ("Eta"@, "Zet"@)]);
            assert(figure_lines_of(tv[1].paths) =~= star_lines()[1].2);
        } else if i == 2 {
            reveal_with_fuel(figure_lines_of, 2);
            assert(path_lines(tv[2].paths[0]) =~= seq![("Bet"@, "Alp"@), ("Alp"@, "Gam"@), ("Gam"@, "Del"@), ("Del"@, "Eps"@)]);
            assert(figure_lines_of(tv[2].paths) =~= star_lines()[2].2);
        } else if i == 3 {
            reveal_with_fuel(figure_lines_of, 7);
            assert(path_lines(tv[3].paths[0]) =~= seq![("Alp"@, "Zet"@), ("Zet"@, "Kap"@)]);
            assert(path_lines(tv[3].paths[1]) =~= seq![("Gam"@, "Del"@), ("Del"@, "Bet"@)]);
            assert(path_lines(tv[3].paths[2]) =~= seq![("Del"@, "Eps"@), ("Eps"@, "Zet"@)]);
            assert(path_lines(tv[3].paths[3]) =~= seq![("Alp"@, "Gam"@)]);
            assert(path_lines(tv[3].paths[4]) =~= seq![("Lam"@, "Alp"@)]);
            assert(path_lines(tv[3].paths[5]) =~= seq![("Lam"@, "Gam"@)]);
            assert(figure_lines_of(tv[3].paths) =~= star_lines()[3].2);
        } else if i == 4 {
            reveal_with_fuel(figure_lines_of, 3);
            assert(path_lines(tv[4].paths[0]) =~= seq![("Bet"@, "Alp"@), ("Alp"@, "Del"@), ("Del"@, "Eta"@)]);
            assert(path_lines(tv[4].paths[1]) =~= seq![("Del"@, "Eps"@), ("Eps"@, "Zet"@)]);
            assert(figure_lines_of(tv[4].paths) =~= star_lines()[4].2);
        } else if i == 5 {
            reveal_with_fuel(figure_lines_of, 2);
            assert(path_lines(tv[5].paths[0]) =~= seq![("Alp"@, "Bet"@)]);
            assert(figure_lines_of(tv[5].paths) =~= star_lines()[5].2);
        } else if i == 6 {
            reveal_with_fuel(figure_lines_of, 3);
            assert(path_lines(tv[6].paths[0]) =~= seq![("Bet"@, "Eps"@), ("Eps"@, "Alp"@), ("Alp"@, "The-2"@), ("The-2"@, "Gam"@)]);
            assert(path_lines(tv[6].paths[1]) =~= seq![("Zet"@, "Alp"@)]);
            assert(figure_lines_of(tv[6].paths) =~= star_lines()[6].2);
        } else if i == 7 {
            reveal_with_fuel(figure_lines_of, 5);
            assert(path_lines(tv[7].paths[0]) =~= seq![("Alp"@, "Tau"@), ("Tau"@, "Eps"@), ("Eps"@, "Mu"@), ("Mu"@, "Eta"@)]);
            assert(path_lines(tv[7].paths[1]) =~= seq![("Bet"@, "Ups"@), ("Ups"@, "Del"@), ("Del"@, "Xi"@)]);
            assert(path_lines(tv[7].paths[2]) =~= seq![("Del"@, "Gam"@)]);
            assert(path_lines(tv[7].paths[3]) =~= seq![("Alp"@, "Bet"@)]);
            assert(figure_lines_of(tv[7].paths) =~= star_lines()[7].2);
        } else if i == 8 {
            reveal_with_fuel(figure_lines_of, 4);
            assert(path_lines(tv[8].paths[0]) =~= seq![("Eps"@, "Mu"@), ("Mu"@, "Zet"@), ("Zet"@, "Gam-1"@), ("Gam-1"@, "Eta"@), ("Eta"@, "Alp"@)]);
            assert(path_lines(tv[8].paths[1]) =~= seq![("Alp"@, "The"@), ("The"@, "Bet"@)]);
            assert(path_lines(tv[8].paths[2]) =~= seq![("The"@, "Del"@), ("Del"@, "Gam-1"@)]);
            assert(figure_lines_of(tv[8].paths) =~= star_lines()[8].2);
        } else if i == 9 {
            reveal_with_fuel(figure_lines_of, 3);
            assert(path_lines(tv[9].paths[0]) =~= seq![("Alp"@, "The"@), ("The"@, "Gam"@), ("Gam"@, "Eta"@), ("Eta"@, "Bet"@)]);
            assert(path_lines(tv[9].paths[1]) =~= seq![("Gam"@, "Del"@), ("Del"@, "Eps"@)]);
            assert(figure_lines_of(tv[9].paths) =~= star_lines()[9].2);
        } else if i == 10 {
            reveal_with_fuel(figure_lines_of, 3);
            assert(path_lines(tv[10].paths[0]) =~= seq![("Alp"@, "Eps"@), ("Eps"@, "Del"@), ("Del"@, "Bet"@), ("Bet"@, "Gam"@), ("Gam"@, "Rho"@), ("Rho"@, "Alp"@)]);
            assert(path_lines(tv[10].paths[1]) =~= seq![("Alp"@, "Eta"@)]);
            assert(figure_lines_of(tv[10].paths) =~= star_lines()[10].2);
        } else if i == 11 {
            reveal_with_fuel(figure_lines_of, 2);
            assert(path_lines(tv[11].paths[0]) =~= seq![("Bet-1"@, "Del"@), ("Del"@, "Pi"@), ("Pi"@, "Sig"@), ("Sig"@, "Alp"@), ("Alp"@, "Tau"@), ("Tau"@, "Eps"@), ("Eps"@, "Mu-1"@), ("Mu-1"@, "Zet-2"@), ("Zet-2"@, "Eta"@), ("Eta"@, "The"@), ("The"@, "Iot-1"@), ("Iot-1"@, "Kap"@), ("Kap"@, "Ups"@), ("Ups"@, "Lam"@)]);
            assert(figure_lines_of(tv[11].paths) =~= star_lines()[11].2);
        } else if i == 12 {
            reveal_with_fuel(figure_lines_of, 3);
            assert(path_lines(tv[12].paths[0]) =~= seq![("Gam-2"@, "Del"@), ("Del"@, "Eps"@), ("Eps"@, "Zet"@), ("Zet"@, "Tau"@), ("Tau"@, "Sig"@), ("Sig"@, "Phi"@), ("Phi"@, "Del"@)]);
            assert(path_lines(tv[12].paths[1]) =~= seq![("Phi"@, "Lam"@), ("Lam"@, "Del"@)]);
            assert(figure_lines_of(tv[12].paths) =~= star_lines()[12].2);
        } else if i == 13 {
            reveal_with_fuel(figure_lines_of, 3);
            assert(path_lines(tv[13].paths[0]) =~= seq![("Alp"@, "Gam"@), ("Gam"@, "Bet-1"@)]);
            assert(path_lines(tv[13].paths[1]) =~= seq![("Del"@, "Gam"@), ("Gam"@, "Eps"@)]);
            assert(figure_lines_of(tv[13].paths) =~= star_lines()[13].2);
        } else if i == 14 {
            reveal_with_fuel(figure_lines_of, 2);
            assert(path_lines(tv[14].paths[0]) =~= seq![("Alp"@, "Zet-1"@), ("Zet-1"@, "Bet"@), ("Bet"@, "Gam"@), ("Gam"@, "Zet-1"@)]);
            assert(figure_lines_of(tv[14].paths) =~= star_lines()[14].2);
        } else if i == 15 {
            reveal_with_fuel(figure_lines_of, 4);
            assert(path_lines(tv[15].paths[0]) =~= seq![("Bet"@, "Alp"@), ("Alp"@, "Gam"@)]);
            assert(path_lines(tv[15].paths[1]) =~= seq![("Gam"@, "Del"@), ("Del"@, "Lam"@)]);
            assert(path_lines(tv[15].paths[2]) =~= seq![("Zet"@, "Del"@)]);
            assert(figure_lines_of(tv[15].paths) =~= star_lines()[15].2);
        } else if i == 16 {
            reveal_with_fuel(figure_lines_of, 3);
            assert(path_lines(tv[16].paths[0]) =~= seq![("Alp-1"@, "Gam"@)]);
            assert(path_lines(tv[16].paths[1]) =~= seq![("Bet"@, "Del"@)]);
            assert(figure_lines_of(tv[16].paths) =~= star_lines()[16].2);
        } else if i == 17 {
            reveal_with_fuel(figure_lines_of, 3);
            assert(path_lines(tv[17].paths[0]) =~= seq![("Eta"@, "Gam"@), ("Gam"@, "Alp"@), ("Alp"@, "Del"@), ("Del"@, "Eps"@), ("Eps"@, "Zet"@)]);
            assert(path_lines(tv[17].paths[1]) =~= seq![("Alp"@, "Bet"@), ("Bet"@, "Rho"@)]);
            assert(figure_lines_of(tv[17].paths) =~= star_lines()[17].2);
        } else if i == 18 {
            reveal_with_fuel(figure_lines_of, 2);
            assert(path_lines(tv[18].paths[0]) =~= seq![("Alp"@, "Del"@), ("Del"@, "Bet"@), ("Bet"@, "Gam-1"@)]);
            assert(figure_lines_of(tv[18].paths) =~= star_lines()[18].2);
        } else if i == 19 {
            reveal_with_fuel(figure_lines_of, 4);
            assert(path_lines(tv[19].paths[0]) =~= seq![("And:Alp"@, "Bet"@), ("Bet"@, "Alp"@), ("Alp"@, "Gam"@), ("Gam"@, "And:Alp"@)]);
            assert(path_lines(tv[19].paths[1]) =~= seq![("Alp"@, "The"@), ("The"@, "Eps"@)]);
            assert(path_lines(tv[19].paths[2]) =~= seq![("Bet"@, "Eta"@)]);
            assert(figure_lines_of(tv[19].paths) =~= star_lines()[19].2);
        } else if i == 20 {
            reveal_with_fuel(figure_lines_of, 2);
            assert(path_lines(tv[20].paths[0]) =~= seq![("Alp"@, "Bet"@), ("Bet"@, "The"@), ("The"@, "Tau:Bet"@), ("Tau:Bet"@, "Iot"@), ("Iot"@, "Eps"@), ("Eps"@, "Alp"@)]);
            assert(figure_lines_of(tv[20].paths) =~= star_lines()[20].2);
        }
    }
}

} // verus!
