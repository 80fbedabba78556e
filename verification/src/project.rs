//! The analysis of a whole project: every source file parsed, and the
//! diagram of all the classes found.

use vstd::prelude::*;
use crate::languages::{all_in_file, law_classes_record_their_file, parse_file, parsed_as};
use crate::model::{ClassDiagram, ClassNode, ClassView};
use crate::relationships::{build_diagram, spec_relationships};

verus! {

/// The classes of `parts`, one part after the other.
pub open spec fn concat_all(parts: Seq<Seq<ClassView>>) -> Seq<ClassView>
    decreases parts.len(),
{
    if parts.len() == 0 {
        seq![]
    } else {
        concat_all(parts.drop_last()) + parts.last()
    }
}

/// Whether every class of `cs` records the path of one of the first `n`
/// files.
pub open spec fn from_files(cs: Seq<ClassView>, files: Seq<(String, String)>, n: int) -> bool {
    forall|k: int|
        0 <= k < cs.len() ==> exists|i: int| 0 <= i < n && (#[trigger] cs[k]).file == files[i].0@
}

/// The diagram of a project whose source files are `files`, each a path and
/// the text read from it: the classes that each file gives, in the order of
/// the files, each recording the file it came from, and the edges between
/// all of them.
pub fn analyze_sources(files: &Vec<(String, String)>) -> (d: ClassDiagram)
    ensures
        exists|parts: Seq<Seq<ClassView>>|
            {
                &&& parts.len() == files.len()
                &&& forall|i: int|
                    0 <= i < files.len() ==> parsed_as(
                        (#[trigger] files@[i]).0@,
                        files@[i].1@,
                        parts[i],
                    )
                &&& d.classes.deep_view() == concat_all(parts)
            },
        d.relationships.deep_view() == spec_relationships(d.classes.deep_view()),
        from_files(d.classes.deep_view(), files@, files.len() as int),
{
    let mut classes: Vec<ClassNode> = Vec::new();
    let ghost mut parts: Seq<Seq<ClassView>> = seq![];
    let n = files.len();
    for i in 0..n
        invariant
            n == files.len(),
            parts.len() == i,
            forall|j: int| 0 <= j < i ==> parsed_as((#[trigger] files@[j]).0@, files@[j].1@, parts[j]),
            classes.deep_view() == concat_all(parts),
            from_files(classes.deep_view(), files@, i as int),
    {
        let (path, source) = &files[i];
        let mut found = parse_file(path.as_str(), source.as_str());
        let ghost before = classes.deep_view();
        let ghost part = found.deep_view();
        classes.append(&mut found);
        proof {
            law_classes_record_their_file(path@, source@, part);
            assert(classes.deep_view() =~= before + part);
            assert forall|k: int| 0 <= k < classes.deep_view().len() implies exists|j: int|
                0 <= j < i + 1 && (#[trigger] classes.deep_view()[k]).file == files@[j].0@ by {
                if k < before.len() {
                    assert(classes.deep_view()[k] == before[k]);
                } else {
                    assert(classes.deep_view()[k] == part[k - before.len()]);
                    assert(all_in_file(part, files@[i as int].0@));
                    assert(part[k - before.len()].file == files@[i as int].0@);
                }
            }
            let next = parts.push(part);
            assert(next.drop_last() =~= parts);
            assert forall|j: int| 0 <= j < i + 1 implies parsed_as(
                (#[trigger] files@[j]).0@,
                files@[j].1@,
                next[j],
            ) by {
                if j < i {
                    assert(next[j] == parts[j]);
                }
            }
            parts = next;
        }
    }
    build_diagram(classes)
}

} // verus!
