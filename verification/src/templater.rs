use vstd::prelude::*;
use crate::tasks::{Value, ValueV};
use crate::util::{chars_string, str_chars};

verus! {

// ------------------------------------------------------------------
// Character-level helpers
// ------------------------------------------------------------------

pub open spec fn is_space(c: char) -> bool {
    c == ' ' || c == '\t' || c == '\n' || c == '\r'
}

/// The characters accepted in an interpolation name.
pub open spec fn is_name_char(c: char) -> bool {
    ('a' <= c && c <= 'z') || ('A' <= c && c <= 'Z') || ('0' <= c && c <= '9') || c == '_'
}

pub open spec fn valid_name(s: Seq<char>) -> bool {
    s.len() > 0 && forall|i: int| 0 <= i < s.len() ==> is_name_char(#[trigger] s[i])
}

pub open spec fn trim_front(s: Seq<char>) -> Seq<char>
    decreases s.len(),
{
    if s.len() > 0 && is_space(s[0]) {
        trim_front(s.skip(1))
    } else {
        s
    }
}

pub open spec fn trim_back(s: Seq<char>) -> Seq<char>
    decreases s.len(),
{
    if s.len() > 0 && is_space(s.last()) {
        trim_back(s.drop_last())
    } else {
        s
    }
}

/// The string with leading and trailing blanks removed.
pub open spec fn trim_text(s: Seq<char>) -> Seq<char> {
    trim_back(trim_front(s))
}

fn is_space_char(c: char) -> (r: bool)
    ensures
        r == is_space(c),
{
    c == ' ' || c == '\t' || c == '\n' || c == '\r'
}

fn is_name_char_exec(c: char) -> (r: bool)
    ensures
        r == is_name_char(c),
{
    ('a' <= c && c <= 'z') || ('A' <= c && c <= 'Z') || ('0' <= c && c <= '9') || c == '_'
}

/// Removes leading and trailing blanks.
#[verifier::loop_isolation(false)]
pub fn trim_chars(v: &Vec<char>) -> (r: Vec<char>)
    ensures
        r@ == trim_text(v@),
{
    let mut lo: usize = 0;
    proof {
        assert(v@.skip(0) =~= v@);
    }
    while lo < v.len() && is_space_char(v[lo])
        invariant
            lo <= v@.len(),
            trim_front(v@.skip(lo as int)) == trim_front(v@),
        decreases v@.len() - lo,
    {
        proof {
            assert(v@.skip(lo as int).skip(1) =~= v@.skip(lo as int + 1));
        }
        lo += 1;
    }
    let ghost u = v@.skip(lo as int);
    proof {
        assert(trim_front(v@) == u);
    }
    let mut hi: usize = v.len();
    proof {
        assert(u.take(v@.len() - lo as int) =~= u);
    }
    while hi > lo && is_space_char(v[hi - 1])
        invariant
            lo <= hi <= v@.len(),
            trim_back(u.take(hi - lo as int)) == trim_back(u),
        decreases hi,
    {
        proof {
            let m = hi - lo as int;
            assert(u.take(m).last() == v@[hi - 1]);
            assert(u.take(m).drop_last() =~= u.take(m - 1));
        }
        hi -= 1;
    }
    let mut out: Vec<char> = Vec::new();
    let mut i: usize = lo;
    while i < hi
        invariant
            lo <= i <= hi,
            out@.len() == i - lo,
            forall|j: int| 0 <= j < out@.len() ==> out@[j] == v@[lo + j],
        decreases hi - i,
    {
        out.push(v[i]);
        i += 1;
    }
    proof {
        assert(out@ =~= u.take(hi - lo as int));
        if hi > lo {
            assert(trim_back(u.take(hi - lo as int)) == u.take(hi - lo as int));
        } else {
            assert(u.take(0) =~= Seq::<char>::empty());
        }
    }
    out
}

/// Element-for-element equality of two character lists.
#[verifier::loop_isolation(false)]
pub fn eq_chars(a: &Vec<char>, b: &Vec<char>) -> (r: bool)
    ensures
        r == (a@ == b@),
{
    if a.len() != b.len() {
        return false;
    }
    let mut i: usize = 0;
    while i < a.len()
        invariant
            i <= a@.len(),
            a@.len() == b@.len(),
            forall|j: int| 0 <= j < i ==> a@[j] == b@[j],
        decreases a@.len() - i,
    {
        if a[i] != b[i] {
            return false;
        }
        i += 1;
    }
    proof {
        assert(a@ =~= b@);
    }
    true
}

// ------------------------------------------------------------------
// Rendering values as text
// ------------------------------------------------------------------

pub open spec fn digit_char(n: int) -> char {
    if n == 0 {
        '0'
    } else if n == 1 {
        '1'
    } else if n == 2 {
        '2'
    } else if n == 3 {
        '3'
    } else if n == 4 {
        '4'
    } else if n == 5 {
        '5'
    } else if n == 6 {
        '6'
    } else if n == 7 {
        '7'
    } else if n == 8 {
        '8'
    } else {
        '9'
    }
}

pub open spec fn nat_text(n: nat) -> Seq<char>
    decreases n,
{
    if n < 10 {
        seq![digit_char(n as int)]
    } else {
        nat_text(n / 10).push(digit_char((n % 10) as int))
    }
}

/// The usual decimal numeral of an integer.
pub open spec fn int_text(i: int) -> Seq<char> {
    if i < 0 {
        seq!['-'] + nat_text((-i) as nat)
    } else {
        nat_text(i as nat)
    }
}

/// How a value reads when interpolated into text: a string as itself, an
/// integer as its decimal numeral, a float as its stored text, a boolean
/// as `true` or `false`, null as nothing, and a list in brackets with
/// items parted by comma and blank.
pub open spec fn value_text(v: ValueV) -> Seq<char>
    decreases v,
{
    match v {
        ValueV::Text(s) => s,
        ValueV::Int(i) => int_text(i),
        ValueV::Float(t) => t,
        ValueV::Bool(b) => if b {
            seq!['t', 'r', 'u', 'e']
        } else {
            seq!['f', 'a', 'l', 's', 'e']
        },
        ValueV::Null => Seq::empty(),
        ValueV::List(items) => seq!['['] + list_text(items) + seq![']'],
    }
}

pub open spec fn list_text(s: Seq<ValueV>) -> Seq<char>
    decreases s,
{
    if s.len() == 0 {
        Seq::empty()
    } else if s.len() == 1 {
        value_text(s[0])
    } else {
        list_text(s.drop_last()) + seq![',', ' '] + value_text(s.last())
    }
}

fn push_digit(out: &mut Vec<char>, d: u64)
    requires
        d < 10,
    ensures
        final(out)@ == old(out)@.push(digit_char(d as int)),
{
    let c: char = if d == 0 {
        '0'
    } else if d == 1 {
        '1'
    } else if d == 2 {
        '2'
    } else if d == 3 {
        '3'
    } else if d == 4 {
        '4'
    } else if d == 5 {
        '5'
    } else if d == 6 {
        '6'
    } else if d == 7 {
        '7'
    } else if d == 8 {
        '8'
    } else {
        '9'
    };
    out.push(c);
}

/// Renders an integer as its decimal numeral.
#[verifier::loop_isolation(false)]
pub fn int_chars(i: i64) -> (r: Vec<char>)
    ensures
        r@ == int_text(i as int),
{
    let neg: bool = i < 0;
    let mag: u64 = if i >= 0 {
        i as u64
    } else {
        (-(i as i128)) as u64
    };
    let mut rev: Vec<char> = Vec::new();
    let mut cur: u64 = mag;
    while cur >= 10
        invariant
            nat_text(mag as nat) == nat_text(cur as nat) + rev@.reverse(),
        decreases cur,
    {
        let ghost prev = rev@;
        push_digit(&mut rev, cur % 10);
        proof {
            assert(rev@.reverse() =~= seq![digit_char((cur % 10) as int)] + prev.reverse());
        }
        cur = cur / 10;
    }
    let ghost prev = rev@;
    push_digit(&mut rev, cur);
    proof {
        assert(rev@.reverse() =~= seq![digit_char(cur as int)] + prev.reverse());
        assert(nat_text(cur as nat) =~= seq![digit_char(cur as int)]);
        assert(nat_text(mag as nat) =~= rev@.reverse());
    }
    let mut out: Vec<char> = Vec::new();
    if neg {
        out.push('-');
    }
    let ghost head = out@;
    let mut k: usize = 0;
    proof {
        assert(out@ =~= head + rev@.reverse().take(0));
    }
    while k < rev.len()
        invariant
            k <= rev@.len(),
            out@ == head + rev@.reverse().take(k as int),
        decreases rev@.len() - k,
    {
        let ghost before = out@;
        out.push(rev[rev.len() - 1 - k]);
        proof {
            assert(rev@.reverse()[k as int] == rev@[rev@.len() - 1 - k]);
            assert(rev@.reverse().take(k + 1) =~= rev@.reverse().take(k as int).push(
                rev@.reverse()[k as int],
            ));
            assert(out@ =~= head + rev@.reverse().take(k + 1));
        }
        k += 1;
    }
    proof {
        assert(rev@.reverse().take(rev@.len() as int) =~= rev@.reverse());
        assert(out@ =~= head + rev@.reverse());
        if i < 0 {
            assert(out@ =~= seq!['-'] + nat_text((-(i as int)) as nat));
        } else {
            assert(out@ =~= nat_text(i as nat));
        }
    }
    out
}

/// Renders a value as the text an interpolation of it produces.
#[verifier::loop_isolation(false)]
pub fn value_chars(v: &Value) -> (r: Vec<char>)
    ensures
        r@ == value_text(v@),
    decreases *v,
{
    match v {
        Value::Text(s) => str_chars(s.as_str()),
        Value::Int(i) => int_chars(*i),
        Value::Float(t) => str_chars(t.as_str()),
        Value::Bool(b) => {
            let mut out: Vec<char> = Vec::new();
            if *b {
                out.push('t');
                out.push('r');
                out.push('u');
                out.push('e');
                proof {
                    assert(out@ =~= seq!['t', 'r', 'u', 'e']);
                }
            } else {
                out.push('f');
                out.push('a');
                out.push('l');
                out.push('s');
                out.push('e');
                proof {
                    assert(out@ =~= seq!['f', 'a', 'l', 's', 'e']);
                }
            }
            out
        },
        Value::Null => Vec::new(),
        Value::List(items) => {
            let ghost itemsv = crate::tasks::values_view(items@);
            proof {
                broadcast use crate::tasks::lemma_values_view;

            }
            let mut out: Vec<char> = Vec::new();
            out.push('[');
            let mut i: usize = 0;
            while i < items.len()
                invariant
                    i <= items@.len(),
                    out@ == seq!['['] + list_text(itemsv.take(i as int)),
                decreases items@.len() - i,
            {
                if i > 0 {
                    out.push(',');
                    out.push(' ');
                }
                proof {
                    let w = *v;
                    assert(decreases_to!(w => w->List_0));
                    assert(w->List_0 == *items);
                    assert(decreases_to!(*items => items@[i as int]));
                }
                let mut piece = value_chars(&items[i]);
                out.append(&mut piece);
                proof {
                    let m = i as int;
                    assert(itemsv.take(m + 1).drop_last() =~= itemsv.take(m));
                    assert(itemsv.take(m + 1).last() == itemsv[m]);
                    if m == 0 {
                        assert(itemsv.take(1)[0] == itemsv[0]);
                        assert(list_text(itemsv.take(1)) == value_text(itemsv[0]));
                        assert(out@ =~= seq!['['] + list_text(itemsv.take(m + 1)));
                    } else {
                        assert(list_text(itemsv.take(m + 1)) == list_text(itemsv.take(m))
                            + seq![',', ' '] + value_text(itemsv[m]));
                        assert(out@ =~= seq!['['] + list_text(itemsv.take(m + 1)));
                    }
                }
                i += 1;
            }
            out.push(']');
            proof {
                assert(itemsv.take(itemsv.len() as int) =~= itemsv);
                assert(out@ =~= seq!['['] + list_text(itemsv) + seq![']']);
            }
            out
        },
    }
}

// ------------------------------------------------------------------
// The interpolation grammar
// ------------------------------------------------------------------

/// The index of the first `}}` pair, if any.
pub open spec fn find_close(s: Seq<char>) -> Option<int>
    decreases s.len(),
{
    if s.len() < 2 {
        Option::None
    } else if s[0] == '}' && s[1] == '}' {
        Option::Some(0)
    } else {
        match find_close(s.skip(1)) {
            Option::Some(i) => Option::Some(i + 1),
            Option::None => Option::None,
        }
    }
}

pub proof fn lemma_find_close_len(s: Seq<char>)
    ensures
        match find_close(s) {
            Option::Some(i) => 0 <= i <= s.len() - 2 && s[i] == '}' && s[i + 1] == '}',
            Option::None => true,
        },
    decreases s.len(),
{
    if s.len() >= 2 && !(s[0] == '}' && s[1] == '}') {
        lemma_find_close_len(s.skip(1));
    }
}

pub proof fn lemma_find_close_none(s: Seq<char>)
    requires
        forall|k: int| 0 <= k < s.len() - 1 ==> !(s[k] == '}' && #[trigger] s[k + 1] == '}'),
    ensures
        find_close(s) is None,
{
    lemma_find_close_len(s);
    if find_close(s) is Some {
        let i = find_close(s)->Some_0;
        assert(!(s[i] == '}' && s[i + 1] == '}'));
    }
}

pub proof fn lemma_find_close_some(s: Seq<char>, i: int)
    requires
        0 <= i <= s.len() - 2,
        s[i] == '}',
        s[i + 1] == '}',
        forall|k: int| 0 <= k < i ==> !(s[k] == '}' && #[trigger] s[k + 1] == '}'),
    ensures
        find_close(s) == Option::Some(i),
    decreases i,
{
    if i > 0 {
        assert(forall|k: int| 0 <= k < s.len() - 1 ==> s.skip(1)[k] == s[k + 1]);
        lemma_find_close_some(s.skip(1), i - 1);
    }
}

/// What expanding a template yields: the expanded text, an undefined
/// variable reference, or malformed interpolation syntax.
pub enum ExpandOutcome {
    Done(Seq<char>),
    Undefined(Seq<char>),
    Malformed,
}

/// The meaning of a template: characters pass through unchanged, while each
/// `{{ name }}` interpolation is replaced by the text of the named context
/// entry.  An unclosed `{{` or an ill-formed name is malformed; a name the
/// context lacks is an undefined reference.
pub open spec fn expand(t: Seq<char>, ctx: Map<Seq<char>, ValueV>) -> ExpandOutcome
    decreases t.len()
        via expand_decreases
{
    if t.len() == 0 {
        ExpandOutcome::Done(Seq::empty())
    } else if t.len() >= 2 && t[0] == '{' && t[1] == '{' {
        let rest = t.skip(2);
        match find_close(rest) {
            Option::None => ExpandOutcome::Malformed,
            Option::Some(i) => {
                let name = trim_text(rest.take(i));
                if !valid_name(name) {
                    ExpandOutcome::Malformed
                } else if !ctx.contains_key(name) {
                    ExpandOutcome::Undefined(name)
                } else {
                    match expand(rest.skip(i + 2), ctx) {
                        ExpandOutcome::Done(r) => ExpandOutcome::Done(value_text(ctx[name]) + r),
                        e => e,
                    }
                }
            },
        }
    } else {
        match expand(t.skip(1), ctx) {
            ExpandOutcome::Done(r) => ExpandOutcome::Done(seq![t[0]] + r),
            e => e,
        }
    }
}

#[via_fn]
proof fn expand_decreases(t: Seq<char>, ctx: Map<Seq<char>, ValueV>) {
    if t.len() >= 2 && t[0] == '{' && t[1] == '{' {
        lemma_find_close_len(t.skip(2));
    }
}

pub open spec fn prepend_outcome(prefix: Seq<char>, r: ExpandOutcome) -> ExpandOutcome {
    match r {
        ExpandOutcome::Done(s) => ExpandOutcome::Done(prefix + s),
        e => e,
    }
}

// ------------------------------------------------------------------
// Errors
// ------------------------------------------------------------------

/// Why expanding a template failed.
#[derive(Debug)]
pub enum TemplateError {
    /// The interpolation syntax itself is malformed: an unclosed `{{`, or
    /// a name that is empty or holds characters a name may not.
    Syntax { template: String },
    /// The template references a name the context does not hold.
    UndefinedVariable { name: String },
}

/// The mathematical model of a template failure.
pub enum TemplateErrV {
    Syntax(Seq<char>),
    Undefined(Seq<char>),
}

impl View for TemplateError {
    type V = TemplateErrV;

    open spec fn view(&self) -> TemplateErrV {
        match self {
            TemplateError::Syntax { template } => TemplateErrV::Syntax(template@),
            TemplateError::UndefinedVariable { name } => TemplateErrV::Undefined(name@),
        }
    }
}

// ------------------------------------------------------------------
// The template context
// ------------------------------------------------------------------

#[derive(Debug)]
pub struct ContextEntry {
    pub name: Vec<char>,
    pub value: Value,
}

/// The mapping from variable name to resolved value that interpolations
/// are expanded against.  A later entry under a name already present
/// overwrites the earlier one.
#[derive(Debug)]
pub struct Templating {
    pub entries: Vec<ContextEntry>,
}

pub open spec fn entries_map(s: Seq<ContextEntry>) -> Map<Seq<char>, ValueV>
    decreases s.len(),
{
    if s.len() == 0 {
        Map::empty()
    } else {
        entries_map(s.drop_last()).insert(s.last().name@, s.last().value@)
    }
}

impl View for Templating {
    type V = Map<Seq<char>, ValueV>;

    open spec fn view(&self) -> Map<Seq<char>, ValueV> {
        entries_map(self.entries@)
    }
}

proof fn lemma_entries_found(s: Seq<ContextEntry>, i: int, name: Seq<char>)
    requires
        0 <= i < s.len(),
        s[i].name@ == name,
        forall|j: int| i < j < s.len() ==> s[j].name@ != name,
    ensures
        entries_map(s).contains_key(name),
        entries_map(s)[name] == s[i].value@,
    decreases s.len(),
{
    if i < s.len() - 1 {
        assert(s.drop_last()[i] == s[i]);
        lemma_entries_found(s.drop_last(), i, name);
    }
}

proof fn lemma_entries_absent(s: Seq<ContextEntry>, name: Seq<char>)
    requires
        forall|j: int| 0 <= j < s.len() ==> s[j].name@ != name,
    ensures
        !entries_map(s).contains_key(name),
    decreases s.len(),
{
    if s.len() > 0 {
        lemma_entries_absent(s.drop_last(), name);
    }
}

impl Default for Templating {
    /// The empty context.
    fn default() -> (r: Templating)
        ensures
            r@ == Map::<Seq<char>, ValueV>::empty(),
    {
        Templating { entries: Vec::new() }
    }
}

impl Templating {
    /// Binds a name to a resolved value, overwriting an earlier binding of
    /// the same name.
    pub fn add_variable(&mut self, name: &str, value: Value)
        ensures
            final(self)@ == old(self)@.insert(name@, value@),
    {
        let entry = ContextEntry { name: str_chars(name), value };
        self.entries.push(entry);
        proof {
            assert(self.entries@.drop_last() =~= old(self).entries@);
        }
    }

    /// Looks a name up; the latest binding wins.
    #[verifier::loop_isolation(false)]
    fn lookup(&self, name: &Vec<char>) -> (r: Option<&Value>)
        ensures
            match r {
                Option::Some(v) => self@.contains_key(name@) && v@ == self@[name@],
                Option::None => !self@.contains_key(name@),
            },
    {
        let mut i: usize = self.entries.len();
        while i > 0
            invariant
                i <= self.entries@.len(),
                forall|j: int| i <= j < self.entries@.len() ==> self.entries@[j].name@ != name@,
            decreases i,
        {
            i = i - 1;
            if eq_chars(&self.entries[i].name, name) {
                proof {
                    lemma_entries_found(self.entries@, i as int, name@);
                }
                return Option::Some(&self.entries[i].value);
            }
        }
        proof {
            lemma_entries_absent(self.entries@, name@);
        }
        Option::None
    }

    /// Expands a template against this context.
    ///
    /// Succeeds with the expanded text exactly when the meaning of the
    /// template under `expand` is `Done`; fails with the undefined name or
    /// with a syntax error exactly when the meaning is `Undefined` or
    /// `Malformed`.
    #[verifier::loop_isolation(false)]
    #[verifier::rlimit(40)]
    pub fn process(&self, template: &str) -> (r: Result<String, TemplateError>)
        ensures
            match r {
                Result::Ok(s) => expand(template@, self@) == ExpandOutcome::Done(s@),
                Result::Err(TemplateError::UndefinedVariable { name }) => expand(template@, self@)
                    == ExpandOutcome::Undefined(name@),
                Result::Err(TemplateError::Syntax { template: t }) => expand(template@, self@)
                    == ExpandOutcome::Malformed && t@ == template@,
            },
    {
        let tv = str_chars(template);
        let n = tv.len();
        let mut out: Vec<char> = Vec::new();
        let mut pos: usize = 0;
        proof {
            assert(tv@.skip(0) =~= tv@);
            match expand(tv@, self@) {
                ExpandOutcome::Done(s0) => {
                    assert(Seq::<char>::empty() + s0 =~= s0);
                },
                _ => {},
            }
        }
        while pos < n
            invariant
                pos <= n == tv@.len(),
                tv@ == template@,
                prepend_outcome(out@, expand(tv@.skip(pos as int), self@)) == expand(tv@, self@),
            decreases n - pos,
        {
            let ghost t = tv@.skip(pos as int);
            let c = tv[pos];
            if c == '{' && pos + 1 < n && tv[pos + 1] == '{' {
                let ghost rest = t.skip(2);
                proof {
                    assert(rest =~= tv@.skip(pos as int + 2));
                }
                // scan for the closing `}}`
                let mut j: usize = pos + 2;
                let mut found: bool = false;
                while j < n - 1 && !found
                    invariant
                        pos + 2 <= j <= n,
                        found ==> j + 1 < n && tv@[j as int] == '}' && tv@[j as int + 1] == '}',
                        forall|k: int|
                            pos + 2 <= k < j ==> !(tv@[k] == '}' && #[trigger] tv@[k + 1] == '}'),
                    decreases n - j, (if found { 0int } else { 1int }),
                {
                    if tv[j] == '}' && tv[j + 1] == '}' {
                        found = true;
                    } else {
                        j += 1;
                    }
                }
                if !found {
                    proof {
                        assert forall|k: int|
                            0 <= k < rest.len() - 1 implies !(rest[k] == '}' && #[trigger] rest[k
                            + 1] == '}') by {
                            assert(rest[k] == tv@[pos + 2 + k]);
                            assert(rest[k + 1] == tv@[pos + 2 + k + 1]);
                            assert(!(tv@[pos + 2 + k] == '}' && tv@[pos + 2 + k + 1] == '}'));
                        }
                        lemma_find_close_none(rest);
                    }
                    return Result::Err(TemplateError::Syntax { template: template.to_owned() });
                }
                let ghost irel = j - (pos + 2) as int;
                proof {
                    assert(rest[irel] == tv@[j as int] && rest[irel + 1] == tv@[j as int + 1]);
                    assert forall|k: int| 0 <= k < irel implies !(rest[k] == '}'
                        && #[trigger] rest[k + 1] == '}') by {
                        assert(rest[k] == tv@[pos + 2 + k]);
                        assert(rest[k + 1] == tv@[pos + 2 + k + 1]);
                        assert(!(tv@[pos + 2 + k] == '}' && tv@[pos + 2 + k + 1] == '}'));
                    }
                    lemma_find_close_some(rest, irel);
                }
                // the raw name between the braces
                let mut raw: Vec<char> = Vec::new();
                let mut k: usize = pos + 2;
                while k < j
                    invariant
                        pos + 2 <= k <= j,
                        raw@.len() == k - (pos + 2),
                        forall|q: int| 0 <= q < raw@.len() ==> raw@[q] == tv@[pos + 2 + q],
                    decreases j - k,
                {
                    raw.push(tv[k]);
                    k += 1;
                }
                proof {
                    assert(raw@ =~= rest.take(irel));
                }
                let name = trim_chars(&raw);
                // the name must be well formed
                let mut ok: bool = name.len() > 0;
                let mut q: usize = 0;
                while q < name.len() && ok
                    invariant
                        q <= name@.len(),
                        ok ==> name@.len() > 0,
                        ok ==> forall|w: int| 0 <= w < q ==> is_name_char(#[trigger] name@[w]),
                        !ok ==> !valid_name(name@),
                    decreases name@.len() - q, (if ok { 1int } else { 0int }),
                {
                    if !is_name_char_exec(name[q]) {
                        ok = false;
                    } else {
                        q += 1;
                    }
                }
                if !ok {
                    return Result::Err(TemplateError::Syntax { template: template.to_owned() });
                }
                proof {
                    assert(valid_name(name@));
                }
                match self.lookup(&name) {
                    Option::None => {
                        return Result::Err(
                            TemplateError::UndefinedVariable { name: chars_string(&name) },
                        );
                    },
                    Option::Some(v) => {
                        let mut piece = value_chars(v);
                        let ghost before = out@;
                        out.append(&mut piece);
                        proof {
                            assert(t.skip(2).skip(irel + 2) =~= tv@.skip(j as int + 2));
                            assert(out@ =~= before + value_text(self@[name@]));
                            assert forall|r2: Seq<char>|
                                expand(tv@.skip(j as int + 2), self@) == ExpandOutcome::Done(
                                    r2,
                                ) implies prepend_outcome(
                                out@,
                                expand(tv@.skip(j as int + 2), self@),
                            ) == prepend_outcome(before, expand(t, self@)) by {
                                assert((before + (value_text(self@[name@]) + r2)) =~= (before
                                    + value_text(self@[name@]) + r2));
                            }
                        }
                        pos = j + 2;
                    },
                }
            } else {
                let ghost before = out@;
                out.push(c);
                proof {
                    assert(t.skip(1) =~= tv@.skip(pos as int + 1));
                    assert forall|r2: Seq<char>|
                        expand(tv@.skip(pos as int + 1), self@) == ExpandOutcome::Done(
                            r2,
                        ) implies prepend_outcome(
                        out@,
                        expand(tv@.skip(pos as int + 1), self@),
                    ) == prepend_outcome(before, expand(t, self@)) by {
                        assert((before + (seq![t[0]] + r2)) =~= (before.push(c) + r2));
                    }
                }
                pos = pos + 1;
            }
        }
        proof {
            assert(tv@.skip(pos as int) =~= Seq::<char>::empty());
            assert(out@ + Seq::<char>::empty() =~= out@);
        }
        Result::Ok(chars_string(&out))
    }
}


// ------------------------------------------------------------------
// What a template references
// ------------------------------------------------------------------

/// Whether every interpolation in the template is well formed: each `{{`
/// closed, each name non-empty and made of name characters.
pub open spec fn template_wf(t: Seq<char>) -> bool
    decreases t.len()
        via template_wf_decreases
{
    if t.len() == 0 {
        true
    } else if t.len() >= 2 && t[0] == '{' && t[1] == '{' {
        let rest = t.skip(2);
        match find_close(rest) {
            Option::None => false,
            Option::Some(i) => valid_name(trim_text(rest.take(i))) && template_wf(
                rest.skip(i + 2),
            ),
        }
    } else {
        template_wf(t.skip(1))
    }
}

#[via_fn]
proof fn template_wf_decreases(t: Seq<char>) {
    if t.len() >= 2 && t[0] == '{' && t[1] == '{' {
        lemma_find_close_len(t.skip(2));
    }
}

/// The names a well-formed template references, in order.
pub open spec fn template_refs(t: Seq<char>) -> Seq<Seq<char>>
    decreases t.len()
        via template_refs_decreases
{
    if t.len() == 0 {
        Seq::empty()
    } else if t.len() >= 2 && t[0] == '{' && t[1] == '{' {
        let rest = t.skip(2);
        match find_close(rest) {
            Option::None => Seq::empty(),
            Option::Some(i) => {
                let name = trim_text(rest.take(i));
                if !valid_name(name) {
                    Seq::empty()
                } else {
                    seq![name] + template_refs(rest.skip(i + 2))
                }
            },
        }
    } else {
        template_refs(t.skip(1))
    }
}

#[via_fn]
proof fn template_refs_decreases(t: Seq<char>) {
    if t.len() >= 2 && t[0] == '{' && t[1] == '{' {
        lemma_find_close_len(t.skip(2));
    }
}

/// Expanding a well-formed template against a context that holds every
/// name it references succeeds.
pub proof fn lemma_expand_succeeds(t: Seq<char>, ctx: Map<Seq<char>, ValueV>)
    requires
        template_wf(t),
        forall|j: int|
            0 <= j < template_refs(t).len() ==> ctx.contains_key(#[trigger] template_refs(t)[j]),
    ensures
        expand(t, ctx) is Done,
    decreases t.len(),
{
    if t.len() == 0 {
    } else if t.len() >= 2 && t[0] == '{' && t[1] == '{' {
        let rest = t.skip(2);
        lemma_find_close_len(rest);
        let i = find_close(rest)->Some_0;
        let name = trim_text(rest.take(i));
        let tail = rest.skip(i + 2);
        assert(template_refs(t)[0] == name);
        assert(ctx.contains_key(name));
        assert forall|j: int|
            0 <= j < template_refs(tail).len() implies ctx.contains_key(
                #[trigger] template_refs(tail)[j],
            ) by {
            assert(template_refs(t)[j + 1] == template_refs(tail)[j]);
        }
        lemma_expand_succeeds(tail, ctx);
    } else {
        assert(template_refs(t) == template_refs(t.skip(1)));
        lemma_expand_succeeds(t.skip(1), ctx);
    }
}

/// A name that surfaces as an undefined reference is indeed referenced by
/// the template and absent from the context.
pub proof fn lemma_undefined_ref_missing(t: Seq<char>, ctx: Map<Seq<char>, ValueV>)
    requires
        expand(t, ctx) is Undefined,
    ensures
        !ctx.contains_key(expand(t, ctx)->Undefined_0),
        template_refs(t).contains(expand(t, ctx)->Undefined_0),
    decreases t.len(),
{
    let n = expand(t, ctx)->Undefined_0;
    if t.len() >= 2 && t[0] == '{' && t[1] == '{' {
        let rest = t.skip(2);
        lemma_find_close_len(rest);
        let i = find_close(rest)->Some_0;
        let name = trim_text(rest.take(i));
        let tail = rest.skip(i + 2);
        if !ctx.contains_key(name) {
            assert(template_refs(t)[0] == name);
        } else {
            lemma_undefined_ref_missing(tail, ctx);
            let j = choose|j: int|
                0 <= j < template_refs(tail).len() && template_refs(tail)[j] == n;
            assert(template_refs(t)[j + 1] == n);
        }
    } else {
        lemma_undefined_ref_missing(t.skip(1), ctx);
        let j = choose|j: int|
            0 <= j < template_refs(t.skip(1)).len() && template_refs(t.skip(1))[j] == n;
        assert(template_refs(t)[j] == n);
    }
}

} // verus!
