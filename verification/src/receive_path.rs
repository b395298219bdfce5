//! Where a received file goes: the sender's relative name checked, then a
//! free name chosen next to it (`name (1).ext`, `name (2).ext`, ...).
use vstd::prelude::*;

use crate::alias::{join_path, join_spec};
use crate::ids::{is_hyphenated_uuid, new_uuid_string};
use crate::text::{is_prefix_of, concat2, concat3, decimal, decimal_string, from_chars, subrange_chars, to_chars};

verus! {

broadcast use vstd::string::group_string_axioms;

/// The `/`-separated segments of a name (empty ones included).
pub open spec fn segments(cur: Seq<char>, rest: Seq<char>) -> Seq<Seq<char>>
    decreases rest.len(),
{
    if rest.len() == 0 {
        seq![cur]
    } else if rest[0] == '/' {
        seq![cur] + segments(Seq::empty(), rest.drop_first())
    } else {
        segments(cur.push(rest[0]), rest.drop_first())
    }
}

pub open spec fn name_segments(name: Seq<char>) -> Seq<Seq<char>> {
    segments(Seq::empty(), name)
}

/// A name is refused when absolute, or when one of its components is `..`.
pub open spec fn validate_name_spec(name: Seq<char>) -> Result<(), Seq<char>> {
    if name.len() > 0 && name[0] == '/' {
        Err("Absolute file paths are not allowed"@)
    } else if name_segments(name).contains(".."@) {
        Err("Path traversal is not allowed"@)
    } else {
        Ok(())
    }
}

fn split_segments(s: &Vec<char>) -> (r: Vec<Vec<char>>)
    ensures
        r@.map_values(|p: Vec<char>| p@) == name_segments(s@),
{
    let mut out: Vec<Vec<char>> = Vec::new();
    let mut cur: Vec<char> = Vec::new();
    let mut i: usize = 0;
    assert(s@.skip(0) == s@);
    assert(out@.map_values(|p: Vec<char>| p@) =~= Seq::empty());
    while i < s.len()
        invariant
            i <= s@.len(),
            out@.map_values(|p: Vec<char>| p@) + segments(cur@, s@.skip(i as int)) == name_segments(s@),
        decreases s@.len() - i,
    {
        let ghost rest = s@.skip(i as int);
        assert(rest.drop_first() == s@.skip(i + 1));
        assert(rest[0] == s@[i as int]);
        if s[i] == '/' {
            let ghost o = out@.map_values(|p: Vec<char>| p@);
            let ghost c = cur@;
            out.push(cur);
            assert(out@.map_values(|p: Vec<char>| p@) =~= o + seq![c]);
            cur = Vec::new();
        } else {
            cur.push(s[i]);
        }
        i = i + 1;
    }
    assert(s@.skip(i as int) =~= Seq::<char>::empty());
    let ghost o = out@.map_values(|p: Vec<char>| p@);
    let ghost c = cur@;
    out.push(cur);
    assert(out@.map_values(|p: Vec<char>| p@) =~= o + seq![c]);
    out
}

fn is_dotdot(p: &Vec<char>) -> (r: bool)
    ensures
        r == (p@ == ".."@),
{
    proof {
        reveal_strlit("..");
    }
    let r = p.len() == 2 && p[0] == '.' && p[1] == '.';
    proof {
        if r {
            assert(p@ =~= ".."@);
        }
    }
    r
}

/// Checks a relative name sent by a sender.
pub fn validate_relative_file_name(file_name: &str) -> (r: Result<(), String>)
    ensures
        match validate_name_spec(file_name@) {
            Ok(()) => r is Ok,
            Err(m) => r matches Err(e) && e@ == m,
        },
{
    let chars = to_chars(file_name);
    if chars.len() > 0 && chars[0] == '/' {
        return Err(String::from_str("Absolute file paths are not allowed"));
    }
    let segs = split_segments(&chars);
    let ghost sv = segs@.map_values(|p: Vec<char>| p@);
    let mut i: usize = 0;
    while i < segs.len()
        invariant
            i <= segs@.len(),
            sv == segs@.map_values(|p: Vec<char>| p@),
            sv == name_segments(file_name@),
            !(file_name@.len() > 0 && file_name@[0] == '/'),
            forall|k: int| 0 <= k < i ==> sv[k] != ".."@,
        decreases segs@.len() - i,
    {
        assert(sv[i as int] == segs@[i as int]@);
        if is_dotdot(&segs[i]) {
            assert(sv.contains(".."@));
            return Err(String::from_str("Path traversal is not allowed"));
        }
        i = i + 1;
    }
    assert(!sv.contains(".."@));
    Ok(())
}

// ---------------------------------------------------------------- free names

/// A name's end as a path's components are read from the back: trailing `/`
/// and trailing `.` components dropped (a leading `.` stays).
pub open spec fn trim_back(s: Seq<char>) -> Seq<char>
    decreases s.len(),
{
    if s.len() > 0 && s.last() == '/' {
        trim_back(s.drop_last())
    } else if s.len() >= 2 && s.last() == '.' && s[s.len() - 2] == '/' {
        trim_back(s.drop_last())
    } else {
        s
    }
}

/// Where the last component of a name starts: just after its last `/`.
pub open spec fn leaf_start(s: Seq<char>) -> int
    decreases s.len(),
{
    if s.len() == 0 {
        0
    } else if s.last() == '/' {
        s.len() as int
    } else {
        leaf_start(s.drop_last())
    }
}

/// The position of the last `.` of a name, or -1.
pub open spec fn last_dot(s: Seq<char>) -> int
    decreases s.len(),
{
    if s.len() == 0 {
        -1
    } else if s.last() == '.' {
        s.len() - 1
    } else {
        last_dot(s.drop_last())
    }
}

/// A leaf's stem and extension as `Path::file_stem` and `Path::extension`
/// split it: at the last dot, unless that dot starts the name.
pub open spec fn stem_spec(leaf: Seq<char>) -> Seq<char> {
    let d = last_dot(leaf);
    if d <= 0 { leaf } else { leaf.take(d) }
}

/// The extension with its dot, or nothing.
pub open spec fn ext_spec(leaf: Seq<char>) -> Seq<char> {
    let d = last_dot(leaf);
    if d <= 0 { Seq::empty() } else { leaf.skip(d) }
}

/// Where a received name goes: the directory holding it (inside the receive
/// directory) and its last component.
#[derive(Debug, Clone)]
pub struct PathPlan {
    pub parent_dir: String,
    pub leaf: String,
    pub stem: String,
    pub ext: String,
}

pub struct PlanView {
    pub parent_dir: Seq<char>,
    pub leaf: Seq<char>,
    pub stem: Seq<char>,
    pub ext: Seq<char>,
}

impl View for PathPlan {
    type V = PlanView;

    open spec fn view(&self) -> PlanView {
        PlanView { parent_dir: self.parent_dir@, leaf: self.leaf@, stem: self.stem@, ext: self.ext@ }
    }
}

/// The plan for a name, read as a relative path: its last component is the
/// leaf, and the text before it, its end trimmed, is the directory under the
/// receive directory (none when empty). Refused when invalid or when there is
/// no last component.
pub open spec fn plan_spec(dir: Seq<char>, name: Seq<char>) -> Result<PlanView, Seq<char>> {
    match validate_name_spec(name) {
        Err(m) => Err(m),
        Ok(()) => {
            let t = trim_back(name);
            let k = leaf_start(t);
            let leaf = t.skip(k);
            if leaf.len() == 0 || leaf == "."@ {
                Err("Invalid file name"@)
            } else {
                let parent = trim_back(t.take(k));
                Ok(
                    PlanView {
                        parent_dir: if parent.len() == 0 { dir } else { join_spec(dir, parent) },
                        leaf,
                        stem: stem_spec(leaf),
                        ext: ext_spec(leaf),
                    },
                )
            }
        },
    }
}

/// The length of `trim_back` of the first `end` characters.
fn trim_back_len(v: &Vec<char>, end: usize) -> (e: usize)
    requires
        end <= v@.len(),
    ensures
        e <= end,
        v@.take(e as int) == trim_back(v@.take(end as int)),
{
    let mut e = end;
    while e > 0 && (v[e - 1] == '/' || (e >= 2 && v[e - 1] == '.' && v[e - 2] == '/'))
        invariant
            e <= end,
            end <= v@.len(),
            trim_back(v@.take(end as int)) == trim_back(v@.take(e as int)),
        decreases e,
    {
        let ghost t = v@.take(e as int);
        assert(t.drop_last() =~= v@.take(e - 1));
        assert(t.last() == v@[e - 1]);
        if e >= 2 {
            assert(t[t.len() - 2] == v@[e - 2]);
        }
        e = e - 1;
    }
    proof {
        let t = v@.take(e as int);
        if e > 0 {
            assert(t.last() == v@[e - 1]);
        }
        if e >= 2 {
            assert(t[t.len() - 2] == v@[e - 2]);
        }
    }
    e
}

/// Plans where a received name goes: the checked name's directory, leaf,
/// stem and extension.
pub fn plan_unique_path(dir: &str, file_name: &str) -> (r: Result<PathPlan, String>)
    ensures
        match r {
            Ok(p) => plan_spec(dir@, file_name@) == Ok::<PlanView, Seq<char>>(p@),
            Err(e) => plan_spec(dir@, file_name@) == Err::<PlanView, Seq<char>>(e@),
        },
{
    validate_relative_file_name(file_name)?;
    let chars = to_chars(file_name);
    let e = trim_back_len(&chars, chars.len());
    assert(chars@.take(chars@.len() as int) == chars@);
    let ghost t = chars@.take(e as int);
    assert(t.take(e as int) =~= t);
    // the last component starts after the last `/`
    let mut k: usize = e;
    while k > 0 && chars[k - 1] != '/'
        invariant
            k <= e,
            e <= chars@.len(),
            t == chars@.take(e as int),
            leaf_start(t) == leaf_start(t.take(k as int)),
        decreases k,
    {
        let ghost u = t.take(k as int);
        assert(u.drop_last() =~= t.take(k - 1));
        assert(u.last() == chars@[k - 1]);
        k = k - 1;
    }
    proof {
        let u = t.take(k as int);
        if k > 0 {
            assert(u.last() == chars@[k - 1]);
        } else {
            assert(u =~= Seq::<char>::empty());
        }
    }
    let leaf_chars = subrange_chars(chars.as_slice(), k, e);
    assert(leaf_chars@ =~= t.skip(k as int));
    proof {
        reveal_strlit(".");
    }
    let is_dot = leaf_chars.len() == 1 && leaf_chars[0] == '.';
    proof {
        if is_dot {
            assert(leaf_chars@ =~= "."@);
        } else if leaf_chars@.len() == 1 {
            assert(leaf_chars@ != "."@) by {
                assert(leaf_chars@[0] != "."@[0]);
            }
        }
    }
    if leaf_chars.len() == 0 || is_dot {
        return Err(String::from_str("Invalid file name"));
    }
    let pe = trim_back_len(&chars, k);
    assert(chars@.take(k as int) =~= t.take(k as int));
    let parent_chars = subrange_chars(chars.as_slice(), 0, pe);
    assert(parent_chars@ =~= chars@.take(pe as int));
    let parent = from_chars(parent_chars.as_slice());
    let parent_dir = if parent_chars.len() == 0 {
        String::from_str(dir)
    } else {
        join_path(dir, parent.as_str())
    };
    let leaf = from_chars(leaf_chars.as_slice());
    // the last dot
    let mut d: usize = leaf_chars.len();
    assert(leaf_chars@.take(d as int) == leaf_chars@);
    while d > 0 && leaf_chars[d - 1] != '.'
        invariant
            d <= leaf_chars@.len(),
            last_dot(leaf_chars@) == last_dot(leaf_chars@.take(d as int)),
        decreases d,
    {
        let ghost u = leaf_chars@.take(d as int);
        assert(u.drop_last() == leaf_chars@.take(d - 1));
        d = d - 1;
    }
    proof {
        if d > 0 {
            let u = leaf_chars@.take(d as int);
            assert(u.last() == '.');
        } else {
            assert(leaf_chars@.take(0) =~= Seq::<char>::empty());
        }
    }
    let (stem, ext) = if d <= 1 {
        (leaf.clone(), String::new())
    } else {
        let s = subrange_chars(leaf_chars.as_slice(), 0, d - 1);
        let x = subrange_chars(leaf_chars.as_slice(), d - 1, leaf_chars.len());
        assert(s@ == leaf_chars@.take(d - 1));
        assert(x@ == leaf_chars@.skip(d - 1));
        (from_chars(s.as_slice()), from_chars(x.as_slice()))
    };
    Ok(PathPlan { parent_dir, leaf, stem, ext })
}

/// The name tried for a file: the sender's name first (`index` 0), then
/// `stem (index)ext`.
pub open spec fn candidate_spec(p: PlanView, index: nat) -> Seq<char> {
    if index == 0 {
        join_spec(p.parent_dir, p.leaf)
    } else {
        join_spec(p.parent_dir, p.stem + " ("@ + decimal(index) + ")"@ + p.ext)
    }
}

/// How many numbered names are tried before a random one.
pub const MAX_NUMBERED_CANDIDATES: u32 = 999;

/// The `index`-th name tried for a file.
pub fn candidate_path(plan: &PathPlan, index: u32) -> (r: String)
    ensures
        r@ == candidate_spec(plan@, index as nat),
{
    if index == 0 {
        return join_path(plan.parent_dir.as_str(), plan.leaf.as_str());
    }
    let d = decimal_string(index as u64);
    let a = concat3(plan.stem.as_str(), " (", d.as_str());
    let b = concat3(a.as_str(), ")", plan.ext.as_str());
    join_path(plan.parent_dir.as_str(), b.as_str())
}

/// The name used when every numbered name is taken: `stem-<random id>ext`.
pub fn fallback_path(plan: &PathPlan) -> (r: String)
    ensures
        exists|id: Seq<char>| is_hyphenated_uuid(id) && r@ == join_spec(plan.parent_dir@, plan.stem@ + "-"@ + id + plan.ext@),
{
    let id = new_uuid_string();
    let a = concat3(plan.stem.as_str(), "-", id.as_str());
    let b = concat2(a.as_str(), plan.ext.as_str());
    let r = join_path(plan.parent_dir.as_str(), b.as_str());
    assert(r@ == join_spec(plan.parent_dir@, plan.stem@ + "-"@ + id@ + plan.ext@));
    r
}

/// The position of the first `false`, if any.
pub open spec fn first_free(taken: Seq<bool>) -> Option<nat>
    decreases taken.len(),
{
    if taken.len() == 0 {
        None
    } else if !taken[0] {
        Some(0)
    } else {
        match first_free(taken.drop_first()) {
            Some(k) => Some(k + 1),
            None => None,
        }
    }
}

/// The name a received file is stored under: the first candidate that is not
/// taken, where `taken[k]` says whether the `k`-th candidate already exists
/// (the answers may stop at the first free one); when every answer says
/// taken, the random name.
pub fn choose_free_path(plan: &PathPlan, taken: &Vec<bool>) -> (r: String)
    requires
        taken@.len() <= MAX_NUMBERED_CANDIDATES + 1,
    ensures
        match first_free(taken@) {
            Some(k) => r@ == candidate_spec(plan@, k),
            None => exists|id: Seq<char>|
                is_hyphenated_uuid(id) && r@ == join_spec(plan.parent_dir@, plan.stem@ + "-"@ + id + plan.ext@),
        },
{
    let mut i: usize = 0;
    assert(taken@.skip(0) == taken@);
    while i < taken.len()
        invariant
            i <= taken@.len(),
            taken@.len() <= MAX_NUMBERED_CANDIDATES + 1,
            first_free(taken@) == match first_free(taken@.skip(i as int)) {
                Some(k) => Some((k + i) as nat),
                None => None::<nat>,
            },
        decreases taken@.len() - i,
    {
        let ghost rest = taken@.skip(i as int);
        assert(rest[0] == taken@[i as int]);
        assert(rest.drop_first() == taken@.skip(i + 1));
        if !taken[i] {
            return candidate_path(plan, i as u32);
        }
        i = i + 1;
    }
    fallback_path(plan)
}

proof fn lemma_join_prefix(dir: Seq<char>, name: Seq<char>)
    ensures
        is_prefix_of(dir, join_spec(dir, name)),
{
    let j = join_spec(dir, name);
    assert(j.take(dir.len() as int) =~= dir);
}

/// Every name tried for a received file lies under the receive directory:
/// the directory is a prefix of it.
pub proof fn law_candidates_stay_in_receive_dir(dir: Seq<char>, name: Seq<char>, index: nat)
    requires
        plan_spec(dir, name) is Ok,
    ensures
        is_prefix_of(dir, candidate_spec(plan_spec(dir, name)->Ok_0, index)),
{
    let p = plan_spec(dir, name)->Ok_0;
    assert(is_prefix_of(dir, p.parent_dir)) by {
        assert(dir.take(dir.len() as int) =~= dir);
        if p.parent_dir != dir {
            lemma_join_prefix(dir, trim_back(trim_back(name).take(leaf_start(trim_back(name)))));
        }
    }
    let x = if index == 0 { p.leaf } else { p.stem + " ("@ + decimal(index) + ")"@ + p.ext };
    lemma_join_prefix(p.parent_dir, x);
    let j = join_spec(p.parent_dir, x);
    assert(j.take(p.parent_dir.len() as int).take(dir.len() as int) =~= j.take(dir.len() as int));
}

} // verus!
