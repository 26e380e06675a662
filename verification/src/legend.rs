use vstd::prelude::*;
use crate::paths::{check_descendant, is_descendant, join_from, join_slash};

verus! {

/// Whether `name` carries the Markdown extension: it ends in `.md`.
pub open spec fn is_markdown_name(name: Seq<char>) -> bool {
    name.len() >= 3 && name[name.len() - 3] == '.' && name[name.len() - 2] == 'm' && name[name.len()
        - 1] == 'd'
}

/// Whether a file with components `f` belongs in the legend for `root`: it
/// lies strictly below the root and its base name is a Markdown name.
pub open spec fn legend_keeps(root: Seq<Seq<char>>, f: Seq<Seq<char>>) -> bool {
    is_descendant(root, f) && f.len() > root.len() && is_markdown_name(f.last())
}

/// The legend for `root` given the files under it: the root-relative,
/// `/`-joined path of every Markdown file, in the order the files are given.
pub open spec fn legend_spec(root: Seq<Seq<char>>, files: Seq<Seq<Seq<char>>>) -> Seq<Seq<char>>
    decreases files.len(),
{
    if files.len() == 0 {
        Seq::<Seq<char>>::empty()
    } else if legend_keeps(root, files[0]) {
        seq![join_slash(files[0].skip(root.len() as int))] + legend_spec(root, files.skip(1))
    } else {
        legend_spec(root, files.skip(1))
    }
}

/// Whether the file name ends in `.md`.
pub fn has_markdown_extension(name: &String) -> (r: bool)
    ensures
        r == is_markdown_name(name@),
{
    let n = name.as_str().unicode_len();
    if n < 3 {
        return false;
    }
    let dot = name.as_str().get_char(n - 3);
    let m = name.as_str().get_char(n - 2);
    let d = name.as_str().get_char(n - 1);
    dot == '.' && m == 'm' && d == 'd'
}

/// The directory index ("legend"): the root-relative path of every Markdown
/// file among `files`, each given as the component sequence of its canonical
/// absolute path. Non-Markdown files and paths outside the root are left
/// out; enumeration itself — and the skipping of unreadable entries — is the
/// caller's, so the result is best effort by construction.
pub fn build_legend(root: &Vec<String>, files: &Vec<Vec<String>>) -> (r: Vec<String>)
    ensures
        r.deep_view() == legend_spec(root.deep_view(), files.deep_view()),
{
    let ghost all = files.deep_view();
    let mut r: Vec<String> = Vec::new();
    let mut i: usize = 0;
    proof {
        assert(all.skip(0) =~= all);
        assert(r.deep_view() + legend_spec(root.deep_view(), all) =~= legend_spec(
            root.deep_view(),
            all,
        ));
    }
    while i < files.len()
        invariant
            i <= files@.len(),
            all == files.deep_view(),
            r.deep_view() + legend_spec(root.deep_view(), all.skip(i as int)) == legend_spec(
                root.deep_view(),
                all,
            ),
        decreases files@.len() - i,
    {
        let ghost pre = r.deep_view();
        let ghost rest = all.skip(i as int);
        proof {
            assert(rest[0] == files@[i as int].deep_view());
            assert(rest.skip(1) =~= all.skip(i as int + 1));
        }
        let f = &files[i];
        let keep = if check_descendant(root, f) && f.len() > root.len() {
            has_markdown_extension(&f[f.len() - 1])
        } else {
            false
        };
        proof {
            if f@.len() > 0 {
                assert(f.deep_view().last() == f@[f@.len() - 1]@);
            }
            assert(keep == legend_keeps(root.deep_view(), rest[0]));
        }
        if keep {
            let rel = join_from(f, root.len());
            r.push(rel);
            proof {
                assert(f.deep_view().skip(root.deep_view().len() as int) =~= rest[0].skip(
                    root.deep_view().len() as int,
                ));
                assert(r.deep_view() =~= pre.push(rel@));
                assert(pre.push(rel@) + legend_spec(root.deep_view(), rest.skip(1)) =~= pre + (
                seq![join_slash(rest[0].skip(root.deep_view().len() as int))] + legend_spec(
                    root.deep_view(),
                    rest.skip(1),
                )));
            }
        }
        i += 1;
    }
    proof {
        assert(all.skip(i as int) =~= Seq::<Seq<Seq<char>>>::empty());
        assert(r.deep_view() + legend_spec(root.deep_view(), all.skip(i as int)) =~= r.deep_view());
    }
    r
}

} // verus!
