use vstd::prelude::*;
use vstd::string::StrSliceExecFns;

verus! {

/// One interpolation placeholder of a message template, classified by the
/// argument part of its body (the text before any `:` options): empty for an
/// implicit positional placeholder, all digits for an explicit positional one
/// (carrying the digit text), an identifier for a named one.
#[derive(Clone, Debug, PartialEq, Eq)]
pub enum Placeholder {
    Implicit,
    Positional(String),
    Named(String),
}

/// Ghost mirror of `Placeholder`: an explicit positional placeholder carries
/// the index its digits denote.
pub enum PhModel {
    Implicit,
    Positional(nat),
    Named(Seq<char>),
}

impl View for Placeholder {
    type V = PhModel;

    open spec fn view(&self) -> PhModel {
        match self {
            Placeholder::Implicit => PhModel::Implicit,
            Placeholder::Positional(s) => PhModel::Positional(digits_val(s@)),
            Placeholder::Named(s) => PhModel::Named(s@),
        }
    }
}

impl DeepView for Placeholder {
    type V = PhModel;

    open spec fn deep_view(&self) -> PhModel {
        self@
    }
}

pub open spec fn is_digit(c: char) -> bool {
    48 <= c as u32 <= 57
}

pub open spec fn is_ident_start(c: char) -> bool {
    (97 <= c as u32 <= 122) || (65 <= c as u32 <= 90) || c as u32 == 95
}

pub open spec fn is_ident_char(c: char) -> bool {
    is_ident_start(c) || is_digit(c)
}

/// The value of one decimal digit (out-of-range characters get a sentinel,
/// so the function is total).
pub open spec fn digit_val(c: char) -> nat {
    if is_digit(c) {
        (c as u32 - 48) as nat
    } else {
        10
    }
}

/// The number the digits of `s` denote, most significant first.
pub open spec fn digits_val(s: Seq<char>) -> nat
    decreases s.len(),
{
    if s.len() == 0 {
        0
    } else {
        10 * digits_val(s.drop_last()) + digit_val(s.last())
    }
}

pub open spec fn all_digits(s: Seq<char>) -> bool {
    forall|i: int| 0 <= i < s.len() ==> is_digit(s[i])
}

pub open spec fn is_ident(s: Seq<char>) -> bool {
    &&& s.len() > 0
    &&& is_ident_start(s[0])
    &&& forall|i: int| 1 <= i < s.len() ==> is_ident_char(s[i])
}

/// What an argument part denotes, or `None` when it is neither empty, a
/// number, nor an identifier.
pub open spec fn classify(arg: Seq<char>) -> Option<PhModel> {
    if arg.len() == 0 {
        Some(PhModel::Implicit)
    } else if all_digits(arg) {
        Some(PhModel::Positional(digits_val(arg)))
    } else if is_ident(arg) {
        Some(PhModel::Named(arg))
    } else {
        None
    }
}

/// Scanner position between two characters of a template: outside any
/// placeholder, just after an opening brace, inside a placeholder body (with
/// the argument part read so far, and whether a `:` has been passed), or just
/// after a closing brace seen outside a placeholder.
pub enum ModeModel {
    Outside,
    Open,
    Inside { arg: Seq<char>, colon: bool },
    CloseSeen,
}

/// Scanner state: failed, or going with the placeholders found so far.
pub enum ScanState {
    Failed,
    Going { mode: ModeModel, phs: Seq<PhModel> },
}

/// One step of the template scanner.  `{{` and `}}` are escapes for literal
/// braces; an unescaped `{` opens a placeholder, which runs to the next `}`;
/// a `{` inside a placeholder, a stray `}`, or an unclassifiable argument
/// part fails the scan.
pub open spec fn scan_step(st: ScanState, c: char) -> ScanState {
    match st {
        ScanState::Failed => ScanState::Failed,
        ScanState::Going { mode, phs } => match mode {
            ModeModel::Outside => {
                if c == '{' {
                    ScanState::Going { mode: ModeModel::Open, phs }
                } else if c == '}' {
                    ScanState::Going { mode: ModeModel::CloseSeen, phs }
                } else {
                    ScanState::Going { mode: ModeModel::Outside, phs }
                }
            },
            ModeModel::Open => {
                if c == '{' {
                    ScanState::Going { mode: ModeModel::Outside, phs }
                } else if c == '}' {
                    ScanState::Going { mode: ModeModel::Outside, phs: phs.push(PhModel::Implicit) }
                } else if c == ':' {
                    ScanState::Going {
                        mode: ModeModel::Inside { arg: Seq::empty(), colon: true },
                        phs,
                    }
                } else {
                    ScanState::Going {
                        mode: ModeModel::Inside { arg: seq![c], colon: false },
                        phs,
                    }
                }
            },
            ModeModel::Inside { arg, colon } => {
                if c == '}' {
                    match classify(arg) {
                        Some(ph) => ScanState::Going {
                            mode: ModeModel::Outside,
                            phs: phs.push(ph),
                        },
                        None => ScanState::Failed,
                    }
                } else if c == '{' {
                    ScanState::Failed
                } else if c == ':' {
                    ScanState::Going { mode: ModeModel::Inside { arg, colon: true }, phs }
                } else if !colon {
                    ScanState::Going {
                        mode: ModeModel::Inside { arg: arg.push(c), colon: false },
                        phs,
                    }
                } else {
                    ScanState::Going { mode: ModeModel::Inside { arg, colon: true }, phs }
                }
            },
            ModeModel::CloseSeen => {
                if c == '}' {
                    ScanState::Going { mode: ModeModel::Outside, phs }
                } else {
                    ScanState::Failed
                }
            },
        },
    }
}

/// The scanner state after reading all of `s`.
pub open spec fn scan_prefix(s: Seq<char>) -> ScanState
    decreases s.len(),
{
    if s.len() == 0 {
        ScanState::Going { mode: ModeModel::Outside, phs: Seq::empty() }
    } else {
        scan_step(scan_prefix(s.drop_last()), s.last())
    }
}

/// The placeholders of template `s`, or `None` when the template is
/// malformed: an unterminated placeholder, a stray `}`, a `{` inside a
/// placeholder, or an argument part that is neither empty, a number, nor an
/// identifier.
pub open spec fn placeholders(s: Seq<char>) -> Option<Seq<PhModel>> {
    match scan_prefix(s) {
        ScanState::Going { mode: ModeModel::Outside, phs } => Some(phs),
        _ => None,
    }
}

/// How many placeholders are implicit.
pub open spec fn count_implicit(ps: Seq<PhModel>) -> nat
    decreases ps.len(),
{
    if ps.len() == 0 {
        0
    } else {
        count_implicit(ps.drop_last()) + (if ps.last() is Implicit {
            1nat
        } else {
            0nat
        })
    }
}

/// Placeholders fit a tuple variant of arity `n` when none is named, the
/// implicit ones number at most `n`, every explicit index lies below `n`, and
/// every field is interpolated: by an implicit placeholder, or by an explicit
/// index naming it.
pub open spec fn fits_arity(ps: Seq<PhModel>, n: nat) -> bool {
    &&& count_implicit(ps) <= n
    &&& forall|k: int| 0 <= k < ps.len() ==> !((#[trigger] ps[k]) is Named)
    &&& forall|k: int| 0 <= k < ps.len() ==> ((#[trigger] ps[k]) matches PhModel::Positional(j)
        ==> j < n)
    &&& forall|i: int|
        0 <= i < n ==> (i < count_implicit(ps) || #[trigger] ps.contains(
            PhModel::Positional(i as nat),
        ))
}

/// A template fits a tuple variant of arity `n` when its placeholders parse
/// and fit the arity.
pub open spec fn template_ok_unnamed(s: Seq<char>, n: nat) -> bool {
    match placeholders(s) {
        Some(ps) => fits_arity(ps, n),
        None => false,
    }
}

/// A template fits a record variant when every placeholder names one of the
/// variant's fields and every field appears in some placeholder.
pub open spec fn template_ok_named(s: Seq<char>, names: Seq<Seq<char>>) -> bool {
    match placeholders(s) {
        Some(ps) => {
            &&& forall|k: int|
                0 <= k < ps.len() ==> ((#[trigger] ps[k]) matches PhModel::Named(nm)
                    && names.contains(nm))
            &&& forall|i: int|
                0 <= i < names.len() ==> #[trigger] ps.contains(PhModel::Named(names[i]))
        },
        None => false,
    }
}

/// Once the scanner has failed on a prefix, it has failed on the whole.
proof fn lemma_failed_stays(s: Seq<char>, i: int)
    requires
        0 <= i <= s.len(),
        scan_prefix(s.take(i)) == ScanState::Failed,
    ensures
        scan_prefix(s) == ScanState::Failed,
    decreases s.len() - i,
{
    if i == s.len() {
        assert(s.take(i) =~= s);
    } else {
        assert(s.take(i + 1).drop_last() =~= s.take(i));
        lemma_failed_stays(s, i + 1);
    }
}

proof fn lemma_scan_take_step(s: Seq<char>, i: int)
    requires
        0 <= i < s.len(),
    ensures
        scan_prefix(s.take(i + 1)) == scan_step(scan_prefix(s.take(i)), s[i]),
{
    assert(s.take(i + 1).drop_last() =~= s.take(i));
    assert(s.take(i + 1).last() == s[i]);
}

fn is_digit_exec(c: char) -> (b: bool)
    ensures
        b == is_digit(c),
{
    let u = c as u32;
    48 <= u && u <= 57
}

fn is_ident_start_exec(c: char) -> (b: bool)
    ensures
        b == is_ident_start(c),
{
    let u = c as u32;
    (97 <= u && u <= 122) || (65 <= u && u <= 90) || u == 95
}

fn is_ident_char_exec(c: char) -> (b: bool)
    ensures
        b == is_ident_char(c),
{
    is_ident_start_exec(c) || is_digit_exec(c)
}

/// Classifies the argument part of one placeholder.
fn classify_exec(arg: &str) -> (r: Option<Placeholder>)
    ensures
        match classify(arg@) {
            Some(ph) => r matches Some(p) && p@ == ph,
            None => r is None,
        },
{
    let n = arg.unicode_len();
    if n == 0 {
        return Some(Placeholder::Implicit);
    }
    let mut all_dig = true;
    let mut i: usize = 0;
    while i < n
        invariant
            i <= n,
            n == arg@.len(),
            all_dig == (forall|j: int| 0 <= j < i ==> is_digit(arg@[j])),
        decreases n - i,
    {
        if !is_digit_exec(arg.get_char(i)) {
            all_dig = false;
        }
        i = i + 1;
    }
    if all_dig {
        return Some(Placeholder::Positional(arg.to_owned()));
    }
    if !is_ident_start_exec(arg.get_char(0)) {
        assert(!is_ident(arg@) && !all_digits(arg@));
        return None;
    }
    let mut all_id = true;
    let mut i: usize = 1;
    while i < n
        invariant
            1 <= i <= n,
            n == arg@.len(),
            all_id == (forall|j: int| 1 <= j < i ==> is_ident_char(arg@[j])),
        decreases n - i,
    {
        if !is_ident_char_exec(arg.get_char(i)) {
            all_id = false;
        }
        i = i + 1;
    }
    if all_id {
        Some(Placeholder::Named(arg.to_owned()))
    } else {
        None
    }
}

enum ScanMode {
    Outside,
    Open,
    Inside,
    CloseSeen,
}

/// Scans template `s` for its placeholders; `None` when it is malformed.
pub fn scan_template(s: &str) -> (r: Option<Vec<Placeholder>>)
    ensures
        match placeholders(s@) {
            Some(ps) => r matches Some(v) && v.deep_view() == ps,
            None => r is None,
        },
{
    let n = s.unicode_len();
    let mut phs: Vec<Placeholder> = Vec::new();
    let mut mode = ScanMode::Outside;
    let mut arg_start: usize = 0;
    let mut arg_end: usize = 0;
    let mut colon: bool = false;
    let mut i: usize = 0;
    proof {
        assert(s@.take(0) =~= Seq::<char>::empty());
    }
    while i < n
        invariant
            i <= n,
            n == s@.len(),
            scan_prefix(s@.take(i as int)) matches ScanState::Going { mode: m, phs: ps }
                && ps == phs.deep_view()
                && (match mode {
                    ScanMode::Outside => m == ModeModel::Outside,
                    ScanMode::Open => m == ModeModel::Open,
                    ScanMode::Inside => arg_start <= arg_end <= i && (colon || arg_end == i)
                        && m == (ModeModel::Inside {
                        arg: s@.subrange(arg_start as int, arg_end as int),
                        colon: colon,
                    }),
                    ScanMode::CloseSeen => m == ModeModel::CloseSeen,
                }),
        decreases n - i,
    {
        let c = s.get_char(i);
        proof {
            lemma_scan_take_step(s@, i as int);
        }
        match mode {
            ScanMode::Outside => {
                if c == '{' {
                    mode = ScanMode::Open;
                } else if c == '}' {
                    mode = ScanMode::CloseSeen;
                }
            },
            ScanMode::Open => {
                if c == '{' {
                    mode = ScanMode::Outside;
                } else if c == '}' {
                    let ghost old_phs = phs.deep_view();
                    phs.push(Placeholder::Implicit);
                    mode = ScanMode::Outside;
                    proof {
                        assert(phs.deep_view() =~= old_phs.push(PhModel::Implicit));
                    }
                } else if c == ':' {
                    mode = ScanMode::Inside;
                    arg_start = i;
                    arg_end = i;
                    colon = true;
                    proof {
                        assert(s@.subrange(i as int, i as int) =~= Seq::<char>::empty());
                    }
                } else {
                    mode = ScanMode::Inside;
                    arg_start = i;
                    arg_end = i + 1;
                    colon = false;
                    proof {
                        assert(s@.subrange(i as int, i + 1) =~= seq![s@[i as int]]);
                    }
                }
            },
            ScanMode::Inside => {
                if c == '}' {
                    let arg = s.substring_char(arg_start, arg_end);
                    match classify_exec(arg) {
                        Some(ph) => {
                            let ghost old_phs = phs.deep_view();
                            let ghost phm = ph@;
                            phs.push(ph);
                            mode = ScanMode::Outside;
                            proof {
                                assert(phs.deep_view() =~= old_phs.push(phm));
                            }
                        },
                        None => {
                            proof {
                                lemma_failed_stays(s@, i + 1);
                            }
                            return None;
                        },
                    }
                } else if c == '{' {
                    proof {
                        lemma_failed_stays(s@, i + 1);
                    }
                    return None;
                } else if c == ':' {
                    colon = true;
                } else if !colon {
                    arg_end = i + 1;
                    proof {
                        assert(s@.subrange(arg_start as int, i + 1) =~= s@.subrange(
                            arg_start as int,
                            i as int,
                        ).push(s@[i as int]));
                    }
                }
            },
            ScanMode::CloseSeen => {
                if c == '}' {
                    mode = ScanMode::Outside;
                } else {
                    proof {
                        lemma_failed_stays(s@, i + 1);
                    }
                    return None;
                }
            },
        }
        i = i + 1;
    }
    proof {
        assert(s@.take(n as int) =~= s@);
    }
    match mode {
        ScanMode::Outside => Some(phs),
        _ => None,
    }
}

/// Membership in a pushed sequence is membership in the base or the new last
/// element.
proof fn lemma_contains_push(s: Seq<PhModel>, e: PhModel, x: PhModel)
    ensures
        s.push(e).contains(x) == (s.contains(x) || x == e),
{
    if s.push(e).contains(x) {
        let k = choose|k: int| 0 <= k < s.push(e).len() && s.push(e)[k] == x;
        if k < s.len() {
            assert(s[k] == x);
        }
    }
    if s.contains(x) {
        let k = choose|k: int| 0 <= k < s.len() && s[k] == x;
        assert(s.push(e)[k] == x);
    }
    if x == e {
        assert(s.push(e)[s.len() as int] == x);
    }
}

proof fn lemma_take_parts<A>(s: Seq<A>, i: int)
    requires
        0 <= i < s.len(),
    ensures
        s.take(i + 1).drop_last() == s.take(i),
        s.take(i + 1).last() == s[i],
        s.take(i + 1).len() == i + 1,
{
    assert(s.take(i + 1).drop_last() =~= s.take(i));
}

/// Parses an all-digits argument part and compares its value against `n`:
/// the index when it lies below `n`, nothing otherwise.
fn parse_index(s: &str, n: usize) -> (r: Option<usize>)
    ensures
        match r {
            Some(j) => j as nat == digits_val(s@) && j < n,
            None => digits_val(s@) >= n,
        },
{
    let len = s.unicode_len();
    let mut j: usize = 0;
    let mut over: bool = false;
    let mut i: usize = 0;
    proof {
        assert(s@.take(0) =~= Seq::<char>::empty());
    }
    while i < len
        invariant
            i <= len,
            len == s@.len(),
            !over ==> j as nat == digits_val(s@.take(i as int)) && j <= n,
            over ==> digits_val(s@.take(i as int)) > n,
        decreases len - i,
    {
        let c = s.get_char(i);
        let cu = c as u32;
        let d: usize = if 48 <= cu && cu <= 57 {
            (cu - 48) as usize
        } else {
            10
        };
        proof {
            lemma_take_parts(s@, i as int);
            assert(d as nat == digit_val(s@[i as int]));
            assert(digits_val(s@.take(i + 1)) == 10 * digits_val(s@.take(i as int)) + digit_val(
                s@[i as int],
            ));
        }
        if over {
        } else if j > n / 10 {
            proof {
                assert(10 * (j as int) > n as int);
            }
            over = true;
        } else {
            proof {
                assert(10 * (j as int) <= n as int);
            }
            let v = j * 10;
            if d > n - v {
                over = true;
            } else {
                j = v + d;
            }
        }
        i = i + 1;
    }
    proof {
        assert(s@.take(len as int) =~= s@);
    }
    if over {
        None
    } else if j >= n {
        None
    } else {
        Some(j)
    }
}

/// True when the placeholders fit a tuple variant of arity `n`.
pub fn placeholders_fit_arity(ps: &Vec<Placeholder>, n: usize) -> (b: bool)
    ensures
        b == fits_arity(ps.deep_view(), n as nat),
{
    let ghost psm = ps.deep_view();
    let len = ps.len();
    proof {
        assert(psm.len() == len);
        assert(psm.take(0) =~= Seq::<PhModel>::empty());
    }
    let mut used: Vec<bool> = Vec::new();
    let mut v: usize = 0;
    while v < n
        invariant
            v <= n,
            used@.len() == v,
            forall|x: int| 0 <= x < v ==> used@[x] == false,
        decreases n - v,
    {
        used.push(false);
        v = v + 1;
    }
    let mut implicit: usize = 0;
    let mut i: usize = 0;
    while i < len
        invariant
            i <= len,
            len == ps@.len(),
            psm == ps.deep_view(),
            psm.len() == len,
            used@.len() == n,
            implicit <= i,
            implicit as nat == count_implicit(psm.take(i as int)),
            forall|k: int| 0 <= k < i ==> !((#[trigger] psm[k]) is Named),
            forall|k: int|
                0 <= k < i ==> ((#[trigger] psm[k]) matches PhModel::Positional(j) ==> j < n),
            forall|x: int|
                0 <= x < n ==> used@[x] == psm.take(i as int).contains(
                    PhModel::Positional(x as nat),
                ),
        decreases len - i,
    {
        proof {
            lemma_take_parts(psm, i as int);
            assert(psm[i as int] == ps@[i as int]@);
            assert(psm.take(i + 1) =~= psm.take(i as int).push(psm[i as int]));
        }
        match &ps[i] {
            Placeholder::Implicit => {
                implicit = implicit + 1;
                proof {
                    let t0 = psm.take(i as int);
                    let t1 = psm.take(i as int + 1);
                    assert forall|x: int| 0 <= x < n implies #[trigger] t1.contains(
                        PhModel::Positional(x as nat),
                    ) == t0.contains(PhModel::Positional(x as nat)) by {
                        lemma_contains_push(t0, psm[i as int], PhModel::Positional(x as nat));
                    }
                }
            },
            Placeholder::Named(_) => {
                proof {
                    assert(psm[i as int] is Named);
                }
                return false;
            },
            Placeholder::Positional(ds) => {
                proof {
                    assert(psm[i as int] == PhModel::Positional(digits_val(ds@)));
                }
                match parse_index(ds.as_str(), n) {
                    Some(j) => {
                        used.set(j, true);
                        proof {
                            let t0 = psm.take(i as int);
                            let t1 = psm.take(i as int + 1);
                            assert forall|x: int| 0 <= x < n implies #[trigger] used@[x]
                                == t1.contains(PhModel::Positional(x as nat)) by {
                                lemma_contains_push(t0, psm[i as int], PhModel::Positional(
                                    x as nat,
                                ));
                            }
                        }
                    },
                    None => {
                        proof {
                            assert((psm[i as int]) matches PhModel::Positional(dv) && dv >= n);
                        }
                        return false;
                    },
                }
            },
        }
        i = i + 1;
    }
    proof {
        assert(psm.take(len as int) =~= psm);
    }
    if implicit > n {
        return false;
    }
    let mut x: usize = 0;
    while x < n
        invariant
            x <= n,
            used@.len() == n,
            psm == ps.deep_view(),
            implicit <= n,
            implicit as nat == count_implicit(psm),
            forall|k: int| 0 <= k < psm.len() ==> !((#[trigger] psm[k]) is Named),
            forall|k: int|
                0 <= k < psm.len() ==> ((#[trigger] psm[k]) matches PhModel::Positional(j) ==> j
                    < n),
            forall|x2: int|
                0 <= x2 < n ==> used@[x2] == psm.contains(PhModel::Positional(x2 as nat)),
            forall|y: int|
                0 <= y < x ==> (y < implicit || #[trigger] psm.contains(
                    PhModel::Positional(y as nat),
                )),
        decreases n - x,
    {
        if !(x < implicit || used[x]) {
            return false;
        }
        x = x + 1;
    }
    true
}

fn contains_string(names: &Vec<String>, x: &String) -> (b: bool)
    ensures
        b == names.deep_view().contains(x@),
{
    let n = names.len();
    let mut i: usize = 0;
    while i < n
        invariant
            i <= n,
            n == names@.len(),
            forall|j: int| 0 <= j < i ==> names.deep_view()[j] != x@,
        decreases n - i,
    {
        if x.eq(&names[i]) {
            proof {
                assert(names.deep_view()[i as int] == x@);
            }
            return true;
        }
        i = i + 1;
    }
    proof {
        assert(!names.deep_view().contains(x@));
    }
    false
}

fn contains_named(ps: &Vec<Placeholder>, name: &String) -> (b: bool)
    ensures
        b == ps.deep_view().contains(PhModel::Named(name@)),
{
    let n = ps.len();
    let mut i: usize = 0;
    while i < n
        invariant
            i <= n,
            n == ps@.len(),
            forall|j: int| 0 <= j < i ==> ps.deep_view()[j] != PhModel::Named(name@),
        decreases n - i,
    {
        match &ps[i] {
            Placeholder::Named(nm) => {
                if name.eq(nm) {
                    proof {
                        assert(ps.deep_view()[i as int] == PhModel::Named(name@));
                    }
                    return true;
                }
                proof {
                    assert(ps.deep_view()[i as int] == PhModel::Named(nm@));
                }
            },
            _ => {
                proof {
                    assert(ps.deep_view()[i as int] == ps@[i as int]@);
                }
            },
        }
        i = i + 1;
    }
    proof {
        assert(!ps.deep_view().contains(PhModel::Named(name@)));
    }
    false
}

/// True when every placeholder names one of the given fields and every field
/// appears in some placeholder, as a record variant requires.
pub fn placeholders_match_names(ps: &Vec<Placeholder>, names: &Vec<String>) -> (b: bool)
    ensures
        b == ({
            &&& forall|k: int|
                0 <= k < ps.deep_view().len() ==> ((#[trigger] ps.deep_view()[k]) matches PhModel::Named(
                    nm,
                ) && names.deep_view().contains(nm))
            &&& forall|i: int|
                0 <= i < names.deep_view().len() ==> #[trigger] ps.deep_view().contains(
                    PhModel::Named(names.deep_view()[i]),
                )
        }),
{
    let n = ps.len();
    let mut i: usize = 0;
    while i < n
        invariant
            i <= n,
            n == ps@.len(),
            forall|k: int|
                0 <= k < i ==> ((#[trigger] ps.deep_view()[k]) matches PhModel::Named(nm)
                    && names.deep_view().contains(nm)),
        decreases n - i,
    {
        match &ps[i] {
            Placeholder::Named(nm) => {
                if !contains_string(names, nm) {
                    proof {
                        assert(ps.deep_view()[i as int] == PhModel::Named(nm@));
                    }
                    return false;
                }
            },
            _ => {
                proof {
                    assert(ps.deep_view()[i as int] == ps@[i as int]@);
                    assert(!(ps.deep_view()[i as int] is Named));
                }
                return false;
            },
        }
        i = i + 1;
    }
    let m = names.len();
    let mut t: usize = 0;
    while t < m
        invariant
            t <= m,
            m == names@.len(),
            n == ps@.len(),
            forall|k: int|
                0 <= k < ps.deep_view().len() ==> ((#[trigger] ps.deep_view()[k]) matches PhModel::Named(
                    nm,
                ) && names.deep_view().contains(nm)),
            forall|y: int|
                0 <= y < t ==> #[trigger] ps.deep_view().contains(
                    PhModel::Named(names.deep_view()[y]),
                ),
        decreases m - t,
    {
        if !contains_named(ps, &names[t]) {
            proof {
                assert(names.deep_view()[t as int] == names@[t as int]@);
            }
            return false;
        }
        proof {
            assert(names.deep_view()[t as int] == names@[t as int]@);
        }
        t = t + 1;
    }
    true
}

} // verus!
