//! The patch commands for the peripherals of a device.
//!
//! A patch document is a mapping. Under `delete` it holds the name of a
//! peripheral or a sequence of names. Under `copy` it holds a mapping from
//! the name of a destination to a mapping whose `from` field says where the
//! peripheral comes from.

use crate::patch::yaml::pair_views;
use crate::patch::yaml::Yaml;
use crate::patch::yaml::YamlView;
use crate::patch::yaml_ext::hash_under;
use crate::patch::yaml_ext::str_under;
use crate::patch::yaml_ext::strings_under;
use crate::patch::yaml_ext::GetVal;
use crate::patch::yaml_ext::YamlError;
use vstd::prelude::*;

verus! {

/// Where a copied peripheral comes from: `"peripheral"`, or
/// `"file-path:peripheral"` for one of another device description.
#[derive(Debug, PartialEq, Eq)]
pub struct CopySource {
    pub from: String,
}

/// The commands on the peripherals of a device.
#[derive(Debug, PartialEq, Eq)]
pub struct Commands {
    /// Names of the peripherals to delete; their order means nothing.
    pub delete: Vec<String>,
    /// Destination name and source, in the order in which they were written.
    pub copy: Vec<(String, CopySource)>,
}

/// The body of a patch document for one device.
#[derive(Debug, PartialEq, Eq)]
pub struct YamlBody {
    pub commands: Commands,
}

/// What [`Commands`] hold, as a mathematical value.
pub struct CommandsView {
    pub delete: Seq<Seq<char>>,
    /// Pairs of destination name and source reference.
    pub copy: Seq<(Seq<char>, Seq<char>)>,
}

/// The characters of each text of a list, in order.
pub open spec fn text_views(texts: Seq<String>) -> Seq<Seq<char>> {
    texts.map_values(|text: String| text@)
}

/// The views of a list of copy commands, in order.
pub open spec fn copy_views(copies: Seq<(String, CopySource)>) -> Seq<(Seq<char>, Seq<char>)> {
    copies.map_values(|pair: (String, CopySource)| (pair.0@, pair.1.from@))
}

impl View for Commands {
    type V = CommandsView;

    open spec fn view(&self) -> CommandsView {
        CommandsView { delete: text_views(self.delete@), copy: copy_views(self.copy@) }
    }
}

impl View for YamlBody {
    type V = CommandsView;

    open spec fn view(&self) -> CommandsView {
        self.commands@
    }
}

/// The copy command that one entry under `copy` spells: its key is the
/// destination, and its value is a mapping whose `from` field is a string.
pub open spec fn copy_command(entry: (YamlView, YamlView)) -> Result<
    (Seq<char>, Seq<char>),
    YamlError,
> {
    match entry.0 {
        YamlView::String(dest) => match entry.1 {
            YamlView::Hash(fields) => match str_under(fields, YamlView::String("from"@)) {
                Some(from) => Ok((dest, from)),
                None => Err(YamlError::NotStr),
            },
            _ => Err(YamlError::NotHash),
        },
        _ => Err(YamlError::NotStr),
    }
}

/// The copy commands that the entries under `copy` spell, in their order, or
/// the fault of the first entry that spells none.
pub open spec fn copy_commands(entries: Seq<(YamlView, YamlView)>) -> Result<
    Seq<(Seq<char>, Seq<char>)>,
    YamlError,
>
    decreases entries.len(),
{
    if entries.len() == 0 {
        Ok(Seq::empty())
    } else {
        match copy_command(entries.first()) {
            Err(fault) => Err(fault),
            Ok(command) => match copy_commands(entries.drop_first()) {
                Err(fault) => Err(fault),
                Ok(rest) => Ok(seq![command] + rest),
            },
        }
    }
}

/// The commands that a patch document spells. A document without `delete`
/// deletes nothing, and one without `copy` copies nothing.
pub open spec fn commands_of(document: YamlView) -> Result<CommandsView, YamlError> {
    match document {
        YamlView::Hash(root) => {
            let entries = match hash_under(root, YamlView::String("copy"@)) {
                Some(entries) => entries,
                None => Seq::empty(),
            };
            match copy_commands(entries) {
                Err(fault) => Err(fault),
                Ok(copy) => Ok(
                    CommandsView {
                        delete: strings_under(root, YamlView::String("delete"@)),
                        copy,
                    },
                ),
            }
        },
        _ => Err(YamlError::NotHash),
    }
}

/// The view of the result of reading a patch document.
pub open spec fn read_view(read: Result<YamlBody, YamlError>) -> Result<CommandsView, YamlError> {
    match read {
        Ok(body) => Ok(body@),
        Err(fault) => Err(fault),
    }
}

impl YamlBody {
    /// Reads the commands of a patch document.
    #[verifier::loop_isolation(false)]
    pub fn from_yaml(document: &Yaml) -> (read: Result<YamlBody, YamlError>)
        ensures
            read_view(read) == commands_of(document@),
    {
        let root = match document {
            Yaml::Hash(root) => root,
            _ => {
                return Err(YamlError::NotHash);
            },
        };
        let names = root.str_vec_iter("delete").collect();
        let mut delete: Vec<String> = Vec::new();
        let mut i: usize = 0;
        while i < names.len()
            invariant
                i <= names.len(),
                delete.len() == i,
                forall|j: int| 0 <= j < i ==> delete[j]@ == names[j]@,
            decreases names.len() - i,
        {
            delete.push(names[i].to_owned());
            i += 1;
        }
        assert(text_views(delete@) =~= names@.map_values(|text: &str| text@));
        let entries = root.hash_iter("copy");
        let ghost all = pair_views(entries@);
        let mut copy: Vec<(String, CopySource)> = Vec::new();
        let mut k: usize = 0;
        assert(all.skip(0) =~= all);
        while k < entries.len()
            invariant
                k <= entries.len(),
                all == pair_views(entries@),
                copy_commands(all) == match copy_commands(all.skip(k as int)) {
                    Err(fault) => Err::<Seq<(Seq<char>, Seq<char>)>, YamlError>(fault),
                    Ok(rest) => Ok(copy_views(copy@) + rest),
                },
            decreases entries.len() - k,
        {
            let ghost rest = all.skip(k as int);
            assert(rest.drop_first() =~= all.skip(k + 1));
            let dest = match entries[k].0 {
                Yaml::String(dest) => dest,
                _ => {
                    return Err(YamlError::NotStr);
                },
            };
            let fields = match entries[k].1 {
                Yaml::Hash(fields) => fields,
                _ => {
                    return Err(YamlError::NotHash);
                },
            };
            let from = match fields.get_string("from") {
                Some(from) => from,
                None => {
                    return Err(YamlError::NotStr);
                },
            };
            proof {
                let command = (dest@, from@);
                let later = copy_commands(all.skip(k + 1));
                assert(copy_views(copy@.push((*dest, CopySource { from }))) =~= copy_views(
                    copy@,
                ).push(command));
                if later is Ok {
                    assert(copy_views(copy@) + (seq![command] + later->Ok_0) =~= copy_views(
                        copy@,
                    ).push(command) + later->Ok_0);
                }
            }
            copy.push((dest.clone(), CopySource { from }));
            k += 1;
        }
        Ok(YamlBody { commands: Commands { delete, copy } })
    }
}

} // verus!
