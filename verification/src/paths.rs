use vstd::prelude::*;
use crate::DocsmanError;

verus! {

/// Whether the component sequence `root` is a prefix of `path`: every file
/// the server may touch must satisfy this with the sandbox root as `root`.
pub open spec fn is_descendant(root: Seq<Seq<char>>, path: Seq<Seq<char>>) -> bool {
    root.len() <= path.len() && path.subrange(0, root.len() as int) == root
}

/// `parts` joined into one path string with `/` between the components.
pub open spec fn join_slash(parts: Seq<Seq<char>>) -> Seq<char>
    decreases parts.len(),
{
    if parts.len() == 0 {
        Seq::<char>::empty()
    } else if parts.len() == 1 {
        parts[0]
    } else {
        parts[0] + seq!['/'] + join_slash(parts.skip(1))
    }
}

/// Whether `a` and `b` hold the same characters.
fn string_eq(a: &String, b: &String) -> (r: bool)
    ensures
        r == (a@ == b@),
{
    a.eq(b)
}

/// Whether `path`, as a component sequence, lies at or under `root`.
pub fn check_descendant(root: &Vec<String>, path: &Vec<String>) -> (r: bool)
    ensures
        r == is_descendant(root.deep_view(), path.deep_view()),
{
    if path.len() < root.len() {
        return false;
    }
    let mut j: usize = 0;
    while j < root.len()
        invariant
            j <= root@.len(),
            root@.len() <= path@.len(),
            forall|k: int| 0 <= k < j ==> root.deep_view()[k] == path.deep_view()[k],
        decreases root@.len() - j,
    {
        if !string_eq(&root[j], &path[j]) {
            proof {
                let sub = path.deep_view().subrange(0, root.deep_view().len() as int);
                assert(sub[j as int] == path.deep_view()[j as int]);
            }
            return false;
        }
        j += 1;
    }
    proof {
        assert(path.deep_view().subrange(0, root.deep_view().len() as int) =~= root.deep_view());
    }
    true
}

/// A canonical absolute path, as its component sequence, that the resolver
/// has checked against the sandbox root. Values of this type come only out
/// of [`resolve`], whose contract guarantees the sandbox containment.
pub struct ResolvedPath {
    components: Vec<String>,
}

impl ResolvedPath {
    /// The component sequence of the resolved path.
    pub closed spec fn path(&self) -> Seq<Seq<char>> {
        self.components.deep_view()
    }

    /// The final component — the file's base name — if there is one.
    pub fn file_name(&self) -> (r: Option<String>)
        ensures
            match r {
                Some(name) => self.path().len() > 0 && name@ == self.path().last(),
                None => self.path().len() == 0,
            },
    {
        if self.components.len() == 0 {
            None
        } else {
            Some(self.components[self.components.len() - 1].clone())
        }
    }
}

/// The security gate: accept a canonicalized absolute path only if the
/// sandbox root's components are a prefix of its components; everything else
/// is a path escape. Every file the server reads is named by the
/// [`ResolvedPath`] this returns, never by the raw request string.
pub fn resolve(root: &Vec<String>, canonical: &Vec<String>) -> (r: Result<
    ResolvedPath,
    DocsmanError,
>)
    ensures
        r is Ok <==> is_descendant(root.deep_view(), canonical.deep_view()),
        r matches Ok(p) ==> p.path() == canonical.deep_view(),
        r matches Err(e) ==> e == DocsmanError::PathEscape,
{
    if !check_descendant(root, canonical) {
        return Err(DocsmanError::PathEscape);
    }
    let mut components: Vec<String> = Vec::new();
    let mut j: usize = 0;
    while j < canonical.len()
        invariant
            j <= canonical@.len(),
            components@.len() == j,
            forall|k: int| 0 <= k < j ==> components@[k]@ == canonical@[k]@,
        decreases canonical@.len() - j,
    {
        components.push(canonical[j].clone());
        j += 1;
    }
    let p = ResolvedPath { components };
    proof {
        assert(p.path() =~= canonical.deep_view());
    }
    Ok(p)
}

/// Join the components of `parts` from position `start` on with `/`.
pub fn join_from(parts: &Vec<String>, start: usize) -> (r: String)
    requires
        start <= parts@.len(),
    ensures
        r@ == join_slash(parts.deep_view().skip(start as int)),
    decreases parts@.len() - start,
{
    if start >= parts.len() {
        let r = String::new();
        proof {
            assert(parts.deep_view().skip(start as int) =~= Seq::<Seq<char>>::empty());
        }
        r
    } else if start + 1 == parts.len() {
        let r = parts[start].clone();
        proof {
            let sk = parts.deep_view().skip(start as int);
            assert(sk.len() == 1);
            assert(sk[0] == parts@[start as int]@);
        }
        r
    } else {
        let mut r = parts[start].clone();
        r.append("/");
        let rest = join_from(parts, start + 1);
        r.append(rest.as_str());
        proof {
            reveal_strlit("/");
            let sk = parts.deep_view().skip(start as int);
            assert(sk[0] == parts@[start as int]@);
            assert(sk.skip(1) =~= parts.deep_view().skip(start as int + 1));
            assert("/"@ =~= seq!['/']);
            assert(r@ =~= sk[0] + seq!['/'] + join_slash(sk.skip(1)));
        }
        r
    }
}

/// The path of `full` relative to `root`, joined with `/`, when `full` names
/// something strictly below `root`; nothing otherwise.
pub fn relative_to_root(root: &Vec<String>, full: &Vec<String>) -> (r: Option<String>)
    ensures
        match r {
            Some(s) => is_descendant(root.deep_view(), full.deep_view()) && full@.len()
                > root@.len() && s@ == join_slash(
                full.deep_view().skip(root.deep_view().len() as int),
            ),
            None => !(is_descendant(root.deep_view(), full.deep_view()) && full@.len()
                > root@.len()),
        },
{
    if check_descendant(root, full) && full.len() > root.len() {
        Some(join_from(full, root.len()))
    } else {
        None
    }
}

} // verus!
