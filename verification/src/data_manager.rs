//! The text of the data files: the binds file and the file of specific desktops.
use vstd::prelude::*;
use crate::model::SpecificDesktop;
use crate::platform::{join_path, path_joined};
use crate::text::{
    byte_lines, concat_all, join_with, joined, line_text, opt_views, pieces, split_pieces,
    split_words, text_lines, views, words, Spacing,
};

verus! {

broadcast use vstd::string::group_string_axioms;

/// Binds as (bind name, desktop name) texts.
pub open spec fn bind_views(b: Seq<(String, String)>) -> Seq<(Seq<char>, Seq<char>)> {
    b.map_values(|p: (String, String)| (p.0@, p.1@))
}

/// Specific desktops as (name, path) texts.
pub open spec fn desk_views(d: Seq<SpecificDesktop>) -> Seq<(Seq<char>, Seq<char>)> {
    d.map_values(|x: SpecificDesktop| x@)
}

/// The text of the binds file: one line `<bind> <desktop>` per bind.
pub open spec fn binds_text(b: Seq<(Seq<char>, Seq<char>)>) -> Seq<char>
    decreases b.len(),
{
    if b.len() == 0 {
        seq![]
    } else {
        binds_text(b.drop_last()) + b.last().0 + seq![' '] + b.last().1 + seq!['\n']
    }
}

/// The text of the specific desktops file: one line `<name>>><path>` per desktop.
pub open spec fn desktops_text(d: Seq<(Seq<char>, Seq<char>)>) -> Seq<char>
    decreases d.len(),
{
    if d.len() == 0 {
        seq![]
    } else {
        desktops_text(d.drop_last()) + d.last().0 + seq!['>', '>'] + d.last().1 + seq!['\n']
    }
}

/// The lines of a file's bytes, read as text.
pub open spec fn file_lines(bytes: Seq<u8>) -> Seq<Option<Seq<char>>> {
    byte_lines(bytes).map_values(|l: Seq<u8>| line_text(l))
}

/// The binds read from lines `ls[i..]`: a line that is not text is skipped; the first line
/// without any word ends the list; otherwise the first word is the bind's name and the
/// other words, put together without separator, its desktop.
pub open spec fn binds_from(ls: Seq<Option<Seq<char>>>, i: int) -> Seq<(Seq<char>, Seq<char>)>
    decreases ls.len() - i,
{
    if i < 0 || i >= ls.len() {
        seq![]
    } else {
        match ls[i] {
            None => binds_from(ls, i + 1),
            Some(l) => {
                let w = words(l, Spacing::Unicode);
                if w.len() == 0 {
                    seq![]
                } else {
                    seq![(w[0], joined(w.drop_first(), seq![]))] + binds_from(ls, i + 1)
                }
            },
        }
    }
}

/// The binds that a binds file with these bytes holds.
pub open spec fn binds_in_file(bytes: Seq<u8>) -> Seq<(Seq<char>, Seq<char>)> {
    binds_from(file_lines(bytes), 0)
}

/// The specific desktops read from lines `ls[i..]`: a line that is not text is skipped;
/// otherwise the text before the first `>>` is the name and the rest, with each further `>>`
/// turned into a space, the path.
pub open spec fn desktops_from(ls: Seq<Option<Seq<char>>>, i: int) -> Seq<(Seq<char>, Seq<char>)>
    decreases ls.len() - i,
{
    if i < 0 || i >= ls.len() {
        seq![]
    } else {
        match ls[i] {
            None => desktops_from(ls, i + 1),
            Some(l) => {
                let p = pieces(l, seq!['>', '>']);
                if p.len() == 0 {
                    seq![]
                } else {
                    seq![(p[0], joined(p.drop_first(), seq![' ']))] + desktops_from(ls, i + 1)
                }
            },
        }
    }
}

/// The specific desktops that a file with these bytes holds.
pub open spec fn desktops_in_file(bytes: Seq<u8>) -> Seq<(Seq<char>, Seq<char>)> {
    desktops_from(file_lines(bytes), 0)
}

/// The text to write to the binds file for `binds`.
pub fn binds_file_contents(binds: &Vec<(String, String)>) -> (res: String)
    ensures
        res@ == binds_text(bind_views(binds@)),
{
    proof {
        reveal_strlit(" ");
        reveal_strlit("\n");
    }
    let mut res = String::new();
    let mut i: usize = 0;
    while i < binds.len()
        invariant
            i <= binds@.len(),
            res@ == binds_text(bind_views(binds@).take(i as int)),
        decreases binds@.len() - i,
    {
        proof {
            reveal_strlit(" ");
            reveal_strlit("\n");
        }
        assert(" "@ =~= seq![' ']);
        assert("\n"@ =~= seq!['\n']);
        res.append(binds[i].0.as_str());
        res.append(" ");
        res.append(binds[i].1.as_str());
        res.append("\n");
        assert(bind_views(binds@).take(i + 1).drop_last() =~= bind_views(binds@).take(i as int));
        assert(res@ =~= binds_text(bind_views(binds@).take(i + 1)));
        i = i + 1;
    }
    assert(bind_views(binds@).take(binds@.len() as int) =~= bind_views(binds@));
    res
}

/// The text to write to the specific desktops file for `specific_desktops`.
pub fn specific_desktops_file_contents(specific_desktops: &Vec<SpecificDesktop>) -> (res: String)
    ensures
        res@ == desktops_text(desk_views(specific_desktops@)),
{
    proof {
        reveal_strlit(">>");
        reveal_strlit("\n");
    }
    let mut res = String::new();
    let mut i: usize = 0;
    while i < specific_desktops.len()
        invariant
            i <= specific_desktops@.len(),
            res@ == desktops_text(desk_views(specific_desktops@).take(i as int)),
        decreases specific_desktops@.len() - i,
    {
        proof {
            reveal_strlit(">>");
            reveal_strlit("\n");
        }
        assert(">>"@ =~= seq!['>', '>']);
        assert("\n"@ =~= seq!['\n']);
        res.append(specific_desktops[i].name.as_str());
        res.append(">>");
        res.append(specific_desktops[i].path.as_str());
        res.append("\n");
        assert(desk_views(specific_desktops@).take(i + 1).drop_last() =~= desk_views(
            specific_desktops@,
        ).take(i as int));
        assert(res@ =~= desktops_text(desk_views(specific_desktops@).take(i + 1)));
        i = i + 1;
    }
    assert(desk_views(specific_desktops@).take(specific_desktops@.len() as int) =~= desk_views(
        specific_desktops@,
    ));
    res
}

/// The binds held by a binds file with the bytes `contents`.
pub fn get_binds(contents: &[u8]) -> (res: Vec<(String, String)>)
    ensures
        bind_views(res@) == binds_in_file(contents@),
{
    let lines = text_lines(contents);
    let ghost ls = opt_views(lines@);
    let mut binds: Vec<(String, String)> = Vec::new();
    let mut i: usize = 0;
    while i < lines.len()
        invariant
            ls == opt_views(lines@),
            ls == file_lines(contents@),
            i <= lines@.len(),
            bind_views(binds@) + binds_from(ls, i as int) == binds_from(ls, 0),
        decreases lines@.len() - i,
    {
        assert(ls[i as int] == match lines@[i as int] {
            Some(s) => Some(s@),
            None => None,
        });
        match &lines[i] {
            None => {},
            Some(line) => {
                let w = split_words(line.as_str(), Spacing::Unicode);
                if w.len() == 0 {
                    assert(binds_from(ls, i as int) =~= Seq::<(Seq<char>, Seq<char>)>::empty());
                    assert(bind_views(binds@) =~= binds_from(ls, 0));
                    return binds;
                }
                let name = w[0].clone();
                let desk = concat_all(&w.as_slice()[1..w.len()]);
                assert(w@.subrange(1, w@.len() as int).map_values(|s: String| s@) =~= views(
                    w@,
                ).drop_first());
                let ghost prev = bind_views(binds@);
                binds.push((name, desk));
                assert(bind_views(binds@) =~= prev.push((w@[0]@, joined(views(w@).drop_first(), seq![]))));
            },
        }
        i = i + 1;
    }
    binds
}

/// The specific desktops held by a file with the bytes `contents`.
pub fn get_specific_desktops(contents: &[u8]) -> (res: Vec<SpecificDesktop>)
    ensures
        desk_views(res@) == desktops_in_file(contents@),
{
    proof {
        reveal_strlit(">>");
        reveal_strlit(" ");
    }
    let lines = text_lines(contents);
    let ghost ls = opt_views(lines@);
    let mut desktops: Vec<SpecificDesktop> = Vec::new();
    let mut i: usize = 0;
    while i < lines.len()
        invariant
            ls == opt_views(lines@),
            ls == file_lines(contents@),
            i <= lines@.len(),
            desk_views(desktops@) + desktops_from(ls, i as int) == desktops_from(ls, 0),
        decreases lines@.len() - i,
    {
        assert(ls[i as int] == match lines@[i as int] {
            Some(s) => Some(s@),
            None => None,
        });
        match &lines[i] {
            None => {},
            Some(line) => {
                proof {
                    reveal_strlit(">>");
                    reveal_strlit(" ");
                }
                assert(">>"@ =~= seq!['>', '>']);
                let p = split_pieces(line.as_str(), ">>");
                if p.len() == 0 {
                    assert(desktops_from(ls, i as int) =~= Seq::<(Seq<char>, Seq<char>)>::empty());
                    assert(desk_views(desktops@) =~= desktops_from(ls, 0));
                    return desktops;
                }
                let name = p[0].clone();
                let path = join_with(&p.as_slice()[1..p.len()], " ");
                assert(p@.subrange(1, p@.len() as int).map_values(|s: String| s@) =~= views(
                    p@,
                ).drop_first());
                assert(" "@ =~= seq![' ']);
                let ghost prev = desk_views(desktops@);
                desktops.push(SpecificDesktop::new(name, path));
                assert(desk_views(desktops@) =~= prev.push((p@[0]@, joined(views(p@).drop_first(), seq![' ']))));
            },
        }
        i = i + 1;
    }
    desktops
}

/// The binds and the specific desktops, from the bytes of their files; `None` stands for a
/// file that could not be opened.
pub fn load_info(binds_file: Option<Vec<u8>>, specific_file: Option<Vec<u8>>) -> (res: Result<
    (Vec<(String, String)>, Vec<SpecificDesktop>),
    String,
>)
    ensures
        match (binds_file, specific_file) {
            (None, _) => res matches Err(e) && e@ == "Cannot open file to read binds"@,
            (Some(_), None) => res matches Err(e) && e@ == "Cannot open a file"@,
            (Some(b), Some(s)) => res matches Ok((binds, desktops)) && bind_views(binds@)
                == binds_in_file(b@) && desk_views(desktops@) == desktops_in_file(s@),
        },
{
    let binds = match binds_file {
        None => return Err("Cannot open file to read binds".to_owned()),
        Some(b) => get_binds(b.as_slice()),
    };
    let desktops = match specific_file {
        None => return Err("Cannot open a file".to_owned()),
        Some(s) => get_specific_desktops(s.as_slice()),
    };
    Ok((binds, desktops))
}

/// The file, in the working directory, that holds the base path.
pub fn base_data_file_path() -> (res: String)
    ensures
        res@ == "base_data_file.txt"@,
{
    "base_data_file.txt".to_owned()
}

/// The file of specific desktops under the base path `base`.
pub fn specific_desktops_file_path(base: &String) -> (res: String)
    ensures
        res@ == path_joined(base@, "specific_desktops_data_file.txt"@),
{
    join_path(base.as_str(), "specific_desktops_data_file.txt")
}

/// The binds file under the base path `base`.
pub fn binds_file_path(base: &String) -> (res: String)
    ensures
        res@ == path_joined(base@, "binds.txt"@),
{
    join_path(base.as_str(), "binds.txt")
}

} // verus!
