//! Categorizer: splits a group's ordered file sequence into maximal
//! contiguous runs of files that share a source-language category.
//!
//! Classification is purely by file-name extension. Files without a known
//! category end the current run and are dropped from batching. Adjacent files
//! of the same category merge into one batch; a category change starts a new
//! batch, and runs are never coalesced across an intervening run of another
//! category.

use vstd::prelude::*;
use crate::model::{
    FileV, SourceFile, SourceGroup, files_seq_view, lemma_files_seq_view, opt_str_view, str_eq,
    strs_view,
};

verus! {

/// Source-language category of a file.
#[derive(Clone, Copy, PartialEq, Eq, Structural, Debug)]
pub enum SourceType {
    Verilog,
    Vhdl,
}

/// Ghost mirror of one batch: a category and the contiguous run of file
/// paths assigned to it.
pub ghost struct BatchV {
    pub file_type: SourceType,
    pub files: Seq<Seq<char>>,
}

/// Last position of a character in a sequence, if any.
pub open spec fn last_index_of(s: Seq<char>, c: char) -> Option<int>
    decreases s.len(),
{
    if s.len() == 0 {
        None
    } else if s.last() == c {
        Some(s.len() - 1)
    } else {
        last_index_of(s.drop_last(), c)
    }
}

/// The extension of a path: what follows the last dot of the last
/// `/`-separated segment, unless that dot starts the segment.
pub open spec fn spec_extension(p: Seq<char>) -> Option<Seq<char>> {
    let start: int = match last_index_of(p, '/') {
        Some(i) => i + 1,
        None => 0,
    };
    let name = p.subrange(start, p.len() as int);
    match last_index_of(name, '.') {
        None => None,
        Some(j) => if j == 0 {
            None
        } else {
            Some(name.subrange(j + 1, name.len() as int))
        },
    }
}

/// Category assigned to a path by its extension.
pub open spec fn spec_ext_class(p: Seq<char>) -> Option<SourceType> {
    match spec_extension(p) {
        Some(e) => if e == "sv"@ || e == "v"@ || e == "vp"@ {
            Some(SourceType::Verilog)
        } else if e == "vhd"@ || e == "vhdl"@ {
            Some(SourceType::Vhdl)
        } else {
            None
        },
        None => None,
    }
}

/// Category of a group entry: nested groups carry no category.
pub open spec fn spec_class(f: FileV) -> Option<SourceType> {
    match f {
        FileV::File(p) => spec_ext_class(p),
        FileV::Group(_) => None,
    }
}

/// Path of a plain file entry.
pub open spec fn filev_path(f: FileV) -> Seq<char> {
    match f {
        FileV::File(p) => p,
        FileV::Group(_) => Seq::empty(),
    }
}

/// Batches of a file sequence, given the run collected so far.
pub open spec fn batches_from(files: Seq<FileV>, cur: Option<BatchV>) -> Seq<BatchV>
    decreases files.len(),
{
    if files.len() == 0 {
        match cur {
            Some(b) => seq![b],
            None => Seq::empty(),
        }
    } else {
        let rest = files.drop_first();
        match spec_class(files.first()) {
            None => match cur {
                Some(b) => seq![b] + batches_from(rest, None),
                None => batches_from(rest, None),
            },
            Some(t) => {
                let p = filev_path(files.first());
                match cur {
                    Some(b) => if b.file_type == t {
                        batches_from(
                            rest,
                            Some(BatchV { file_type: t, files: b.files.push(p) }),
                        )
                    } else {
                        seq![b] + batches_from(
                            rest,
                            Some(BatchV { file_type: t, files: seq![p] }),
                        )
                    },
                    None => batches_from(rest, Some(BatchV { file_type: t, files: seq![p] })),
                }
            },
        }
    }
}

/// Batches of a file sequence.
pub open spec fn spec_batches(files: Seq<FileV>) -> Seq<BatchV> {
    batches_from(files, None)
}

/// Ghost view of the run being collected.
pub open spec fn cur_view(c: Option<(SourceType, Vec<String>)>) -> Option<BatchV> {
    match c {
        Some(b) => Some(BatchV { file_type: b.0, files: strs_view(b.1) }),
        None => None,
    }
}

/// View of a vector of batches.
pub open spec fn batches_view(v: Vec<(SourceType, Vec<String>)>) -> Seq<BatchV> {
    v@.map_values(
        |b: (SourceType, Vec<String>)| BatchV { file_type: b.0, files: strs_view(b.1) },
    )
}

/// Last position of a character in a string, if any.
pub fn rfind_char(s: &str, c: char) -> (r: Option<usize>)
    ensures
        match r {
            Some(i) => i < s@.len() && last_index_of(s@, c) == Some(i as int),
            None => last_index_of(s@, c) == None::<int>,
        },
{
    let n = s.unicode_len();
    let mut i: usize = n;
    proof {
        assert(s@.take(n as int) =~= s@);
    }
    while i > 0
        invariant
            0 <= i <= n,
            n == s@.len(),
            last_index_of(s@, c) == last_index_of(s@.take(i as int), c),
        decreases i,
    {
        i = i - 1;
        if s.get_char(i) == c {
            proof {
                assert(s@.take(i + 1).last() == c);
            }
            return Some(i);
        }
        proof {
            assert(s@.take(i + 1).last() != c);
            assert(s@.take(i + 1).drop_last() =~= s@.take(i as int));
        }
    }
    proof {
        assert(s@.take(0) =~= Seq::<char>::empty());
    }
    None
}

/// The extension of a path string, as `spec_extension` describes it.
pub fn extension_of(p: &str) -> (r: Option<String>)
    ensures
        opt_str_view(r) == spec_extension(p@),
{
    let n = p.unicode_len();
    let start: usize = match rfind_char(p, '/') {
        Some(i) => i + 1,
        None => 0,
    };
    let name = p.substring_char(start, n);
    let name_len = name.unicode_len();
    match rfind_char(name, '.') {
        None => None,
        Some(j) => {
            if j == 0 {
                None
            } else {
                let e = name.substring_char(j + 1, name_len);
                Some(e.to_owned())
            }
        },
    }
}

/// Category of a path string by its extension.
pub fn categorize_path(p: &str) -> (r: Option<SourceType>)
    ensures
        r == spec_ext_class(p@),
{
    match extension_of(p) {
        None => None,
        Some(e) => {
            let es = e.as_str();
            if str_eq(es, "sv") || str_eq(es, "v") || str_eq(es, "vp") {
                Some(SourceType::Verilog)
            } else if str_eq(es, "vhd") || str_eq(es, "vhdl") {
                Some(SourceType::Vhdl)
            } else {
                None
            }
        },
    }
}

/// Category of a group entry.
pub fn categorize_file(f: &SourceFile) -> (r: Option<SourceType>)
    ensures
        r == spec_class(f.view()),
{
    match f {
        SourceFile::File(p) => categorize_path(p.as_str()),
        SourceFile::Group(_) => None,
    }
}

/// Subdivides the source files in a group into batches.
///
/// Files are assigned a category by their extension; files with the same
/// category that appear after each other are kept in one batch, a category
/// change starts a new batch, and a file without a category ends the current
/// batch and is dropped.
pub fn separate_files_in_group(src: &SourceGroup) -> (r: Vec<(SourceType, Vec<String>)>)
    ensures
        batches_view(r) == spec_batches(src.view().files),
{
    let mut out: Vec<(SourceType, Vec<String>)> = Vec::new();
    let mut cur: Option<(SourceType, Vec<String>)> = None;
    let files = &src.files;
    let ghost fullv = src.view().files;
    proof {
        lemma_files_seq_view(files@);
        assert(fullv =~= files_seq_view(files@));
        assert(fullv.skip(0) =~= fullv);
        assert(batches_view(out) + batches_from(fullv, None) =~= batches_from(fullv, None));
    }
    let mut i: usize = 0;
    while i < files.len()
        invariant
            0 <= i <= files.len(),
            fullv.len() == files@.len(),
            forall|k: int| 0 <= k < files@.len() ==> fullv[k] == files@[k].view(),
            spec_batches(fullv) == batches_view(out) + batches_from(
                fullv.skip(i as int),
                cur_view(cur),
            ),
        decreases files.len() - i,
    {
        let ghost rem = fullv.skip(i as int);
        let ghost curv = cur_view(cur);
        proof {
            assert(rem.len() > 0);
            assert(rem.first() == fullv[i as int]);
            assert(rem.drop_first() =~= fullv.skip(i + 1));
        }
        let cls = categorize_file(&files[i]);
        match cls {
            None => {
                match cur {
                    Some(b) => {
                        proof {
                            assert(batches_view(out).push(curv->Some_0) =~= batches_view(out)
                                + seq![curv->Some_0]);
                            assert((batches_view(out) + seq![curv->Some_0]) + batches_from(
                                fullv.skip(i + 1), None) =~= batches_view(out) + (seq![
                                curv->Some_0] + batches_from(fullv.skip(i + 1), None)));
                        }
                        let ghost prev_out = batches_view(out);
                        out.push(b);
                        proof {
                            assert(batches_view(out) =~= prev_out.push(curv->Some_0));
                        }
                        cur = None;
                    },
                    None => {
                        cur = None;
                    },
                }
            },
            Some(t) => {
                let p = match &files[i] {
                    SourceFile::File(path) => path.clone(),
                    SourceFile::Group(_) => {
                        proof {
                            assert(false);
                        }
                        String::new()
                    },
                };
                proof {
                    assert(p@ == filev_path(rem.first()));
                }
                match cur {
                    Some(mut b) => {
                        if b.0 == t {
                            let ghost prevfiles = strs_view(b.1);
                            b.1.push(p);
                            proof {
                                assert(strs_view(b.1) =~= prevfiles.push(filev_path(
                                    rem.first())));
                            }
                            cur = Some((t, b.1));
                        } else {
                            let ghost prev_out = batches_view(out);
                            out.push(b);
                            proof {
                                assert(batches_view(out) =~= prev_out.push(curv->Some_0));
                                assert((prev_out + seq![curv->Some_0]) + batches_from(
                                    fullv.skip(i + 1),
                                    Some(BatchV {
                                        file_type: t,
                                        files: seq![filev_path(rem.first())],
                                    }),
                                ) =~= prev_out + (seq![curv->Some_0] + batches_from(
                                    fullv.skip(i + 1),
                                    Some(BatchV {
                                        file_type: t,
                                        files: seq![filev_path(rem.first())],
                                    }),
                                )));
                                assert(batches_view(out) =~= prev_out + seq![curv->Some_0]);
                            }
                            let mut nf: Vec<String> = Vec::new();
                            nf.push(p);
                            proof {
                                assert(strs_view(nf) =~= seq![filev_path(rem.first())]);
                            }
                            cur = Some((t, nf));
                        }
                    },
                    None => {
                        let mut nf: Vec<String> = Vec::new();
                        nf.push(p);
                        proof {
                            assert(strs_view(nf) =~= seq![filev_path(rem.first())]);
                        }
                        cur = Some((t, nf));
                    },
                }
            },
        }
        i += 1;
    }
    proof {
        assert(fullv.skip(fullv.len() as int) =~= Seq::<FileV>::empty());
    }
    match cur {
        Some(b) => {
            let ghost prev_out = batches_view(out);
            let ghost curv = BatchV { file_type: b.0, files: strs_view(b.1) };
            out.push(b);
            proof {
                assert(batches_view(out) =~= prev_out.push(curv));
                assert(prev_out + seq![curv] =~= prev_out.push(curv));
            }
        },
        None => {
            proof {
                assert(batches_view(out) + Seq::<BatchV>::empty() =~= batches_view(out));
            }
        },
    }
    out
}

/// All files of a batch sequence, in emitted order.
pub open spec fn batches_files(bs: Seq<BatchV>) -> Seq<Seq<char>>
    decreases bs.len(),
{
    if bs.len() == 0 {
        Seq::empty()
    } else {
        bs.first().files + batches_files(bs.drop_first())
    }
}

/// The classified subsequence of a file sequence: the paths of the files
/// that have a category, in their original order.
pub open spec fn classified_paths(files: Seq<FileV>) -> Seq<Seq<char>>
    decreases files.len(),
{
    if files.len() == 0 {
        Seq::empty()
    } else {
        let rest = classified_paths(files.drop_first());
        if spec_class(files.first()) is Some {
            seq![filev_path(files.first())] + rest
        } else {
            rest
        }
    }
}

/// Files of the run collected so far.
pub open spec fn cur_files(cur: Option<BatchV>) -> Seq<Seq<char>> {
    match cur {
        Some(b) => b.files,
        None => Seq::empty(),
    }
}

proof fn lemma_batches_files_from(files: Seq<FileV>, cur: Option<BatchV>)
    ensures
        batches_files(batches_from(files, cur)) == cur_files(cur) + classified_paths(files),
    decreases files.len(),
{
    if files.len() == 0 {
        match cur {
            Some(b) => {
                assert(batches_from(files, cur) == seq![b]);
                assert(seq![b].first() == b);
                assert(seq![b].drop_first() =~= Seq::<BatchV>::empty());
                assert(batches_files(Seq::<BatchV>::empty()) == Seq::<Seq<char>>::empty());
                assert(batches_files(seq![b]) == b.files + Seq::<Seq<char>>::empty());
                assert(b.files + Seq::<Seq<char>>::empty() =~= b.files);
                assert(cur_files(cur) + classified_paths(files) =~= b.files);
            },
            None => {
                assert(cur_files(cur) + classified_paths(files) =~= Seq::<Seq<char>>::empty());
            },
        }
    } else {
        let rest = files.drop_first();
        match spec_class(files.first()) {
            None => {
                lemma_batches_files_from(rest, None);
                match cur {
                    Some(b) => {
                        let tail = batches_from(rest, None);
                        assert(batches_from(files, cur) == seq![b] + tail);
                        assert((seq![b] + tail).first() == b);
                        assert((seq![b] + tail).drop_first() =~= tail);
                        assert(batches_files(seq![b] + tail) == b.files + batches_files(tail));
                        assert(b.files + (Seq::<Seq<char>>::empty() + classified_paths(rest))
                            =~= cur_files(cur) + classified_paths(files));
                    },
                    None => {
                        assert(cur_files(cur) + classified_paths(files) =~= classified_paths(
                            files));
                        assert(Seq::<Seq<char>>::empty() + classified_paths(rest)
                            =~= classified_paths(files));
                    },
                }
            },
            Some(t) => {
                let p = filev_path(files.first());
                match cur {
                    Some(b) => {
                        if b.file_type == t {
                            let b2 = BatchV { file_type: t, files: b.files.push(p) };
                            lemma_batches_files_from(rest, Some(b2));
                            assert(b.files.push(p) + classified_paths(rest) =~= b.files + (seq![
                                p] + classified_paths(rest)));
                            assert(cur_files(cur) + classified_paths(files) =~= b.files + (seq![
                                p] + classified_paths(rest)));
                        } else {
                            let b2 = BatchV { file_type: t, files: seq![p] };
                            lemma_batches_files_from(rest, Some(b2));
                            let tail = batches_from(rest, Some(b2));
                            assert(batches_from(files, cur) == seq![b] + tail);
                            assert((seq![b] + tail).first() == b);
                            assert((seq![b] + tail).drop_first() =~= tail);
                            assert(batches_files(seq![b] + tail) == b.files + batches_files(
                                tail));
                            assert(b.files + (seq![p] + classified_paths(rest)) =~= cur_files(
                                cur) + classified_paths(files));
                        }
                    },
                    None => {
                        let b2 = BatchV { file_type: t, files: seq![p] };
                        lemma_batches_files_from(rest, Some(b2));
                        assert(seq![p] + classified_paths(rest) =~= cur_files(cur)
                            + classified_paths(files));
                    },
                }
            },
        }
    }
}

/// Batch contiguity: concatenating all batches' files in emitted order
/// reproduces exactly the classified subsequence of the input; unclassified
/// files are removed and the order is otherwise unchanged.
pub proof fn lemma_batches_concat(files: Seq<FileV>)
    ensures
        batches_files(spec_batches(files)) == classified_paths(files),
{
    lemma_batches_files_from(files, None);
    assert(Seq::<Seq<char>>::empty() + classified_paths(files) =~= classified_paths(files));
}

/// No two adjacent batches share a category.
pub open spec fn alternating(bs: Seq<BatchV>) -> bool {
    forall|i: int| 0 <= i < bs.len() - 1 ==> (#[trigger] bs[i]).file_type != bs[i + 1].file_type
}

#[verifier::rlimit(50)]
proof fn lemma_alternating_from(files: Seq<FileV>, cur: Option<BatchV>)
    requires
        forall|k: int| 0 <= k < files.len() ==> spec_class(#[trigger] files[k]) is Some,
    ensures
        alternating(batches_from(files, cur)),
        cur is Some ==> batches_from(files, cur).len() > 0 && batches_from(files, cur)[0]
            .file_type == cur->Some_0.file_type,
    decreases files.len(),
{
    if files.len() == 0 {
    } else {
        let rest = files.drop_first();
        assert(forall|k: int| 0 <= k < rest.len() ==> spec_class(#[trigger] rest[k]) is Some)
            by {
            assert(forall|k: int| 0 <= k < rest.len() ==> rest[k] == files[k + 1]);
        }
        assert(spec_class(files[0]) is Some);
        let t = spec_class(files.first())->Some_0;
        let p = filev_path(files.first());
        match cur {
            Some(b) => {
                if b.file_type == t {
                    let b2 = BatchV { file_type: t, files: b.files.push(p) };
                    lemma_alternating_from(rest, Some(b2));
                } else {
                    let b2 = BatchV { file_type: t, files: seq![p] };
                    lemma_alternating_from(rest, Some(b2));
                    let tail = batches_from(rest, Some(b2));
                    let whole = seq![b] + tail;
                    assert(batches_from(files, cur) == whole);
                    assert forall|i: int| 0 <= i < whole.len() - 1 implies (#[trigger] whole[i])
                        .file_type != whole[i + 1].file_type by {
                        if i == 0 {
                            assert(whole[0] == b);
                            assert(whole[1] == tail[0]);
                        } else {
                            assert(whole[i] == tail[i - 1]);
                            assert(whole[i + 1] == tail[i]);
                        }
                    }
                    assert(whole[0].file_type == b.file_type);
                }
            },
            None => {
                let b2 = BatchV { file_type: t, files: seq![p] };
                lemma_alternating_from(rest, Some(b2));
            },
        }
    }
}

/// Non-coalescence: when every file of the sequence has a category, no two
/// adjacent batches share the same category; a category change starts a new
/// batch even when the category was seen earlier.
pub proof fn lemma_batches_alternate(files: Seq<FileV>)
    requires
        forall|k: int| 0 <= k < files.len() ==> spec_class(#[trigger] files[k]) is Some,
    ensures
        alternating(spec_batches(files)),
{
    lemma_alternating_from(files, None);
}

} // verus!
