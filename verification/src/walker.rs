//! The tree walker: every entry of the template tree is either skipped
//! (version-control metadata, paths the filter marked for deletion, hook
//! sources), rejected (symbolic links, text the engine cannot render), or
//! emitted with its path — and for render-eligible text its contents —
//! rendered against the resolved value set. The whole plan is computed
//! before anything is written.
use vstd::prelude::*;

use crate::GenError;
use crate::filter::{PathClass, glob_match, glob_matches, spec_classify, classify_path};
use crate::render::{render_content, spec_has_template_markers, spec_renders_to};
use crate::strutil::{contains_string, spec_contains_string, spec_ends_with, strip_suffix};
use crate::values::{SpecValue, ValueMap};

verus! {

/// One entry of the source template tree, under its `/`-separated relative
/// path.
#[derive(Debug)]
pub struct SrcEntry {
    pub path: String,
    pub kind: EntryKind,
}

/// What a source entry is.
#[derive(Debug)]
pub enum EntryKind {
    Dir,
    Text { content: String },
    Binary { content: Vec<u8> },
    Symlink,
}

/// One entry planned for the destination tree.
#[derive(Debug)]
pub struct OutEntry {
    pub path: String,
    pub kind: OutKind,
}

/// What a destination entry is.
#[derive(Debug)]
pub enum OutKind {
    Dir,
    Text { content: String },
    Binary { content: Vec<u8> },
}

/// The mathematical shape of a destination entry.
pub struct SpecOut {
    pub path: Seq<char>,
    pub kind: SpecOutKind,
}

/// The mathematical shape of a destination entry's kind.
pub enum SpecOutKind {
    Dir,
    Text(Seq<char>),
    Binary(Seq<u8>),
}

impl View for OutEntry {
    type V = SpecOut;

    open spec fn view(&self) -> SpecOut {
        SpecOut {
            path: self.path@,
            kind: match self.kind {
                OutKind::Dir => SpecOutKind::Dir,
                OutKind::Text { content } => SpecOutKind::Text(content@),
                OutKind::Binary { content } => SpecOutKind::Binary(content@),
            },
        }
    }
}

/// Whether the path lies in version-control metadata: it is the metadata
/// directory itself or anything under one, at any depth.
pub open spec fn spec_in_vcs_dir(p: Seq<char>) -> bool {
    ||| glob_match(".git"@, p)
    ||| glob_match(".git/**"@, p)
    ||| glob_match("**/.git"@, p)
    ||| glob_match("**/.git/**"@, p)
}

/// Version-control metadata test.
pub fn in_vcs_dir(path: &str) -> (r: bool)
    ensures
        r == spec_in_vcs_dir(path@),
{
    glob_matches(".git", path) || glob_matches(".git/**", path) || glob_matches("**/.git", path)
        || glob_matches("**/.git/**", path)
}

/// Whether the walker passes the entry over without a trace: version-control
/// metadata, a path the filter marked for deletion, or a hook source.
pub open spec fn spec_skipped(
    e: SrcEntry,
    inclusions: Seq<String>,
    exclusions: Seq<String>,
    ignores: Seq<String>,
    hooks: Seq<String>,
) -> bool {
    ||| spec_in_vcs_dir(e.path@)
    ||| spec_classify(inclusions, exclusions, ignores, e.path@) is Deleted
    ||| spec_contains_string(hooks, e.path@)
}

/// That `name` is a destination name for source path `p`: some engine
/// rendering of `p`, stripped of the template-file suffix when it carries
/// one and the strip applies — file names lose the suffix, directory names
/// keep theirs.
pub open spec fn spec_names_to(
    p: Seq<char>,
    ctx: Map<Seq<char>, SpecValue>,
    name: Seq<char>,
    strip: bool,
) -> bool {
    exists|s: Seq<char>|
        #[trigger] spec_renders_to(p, ctx, s) && name == (if strip && spec_ends_with(
            s,
            ".liquid"@,
        ) {
            s.take(s.len() - ".liquid"@.len())
        } else {
            s
        })
}

/// The destination-name relation for an entry: directories keep the
/// template-file suffix, everything else loses it.
pub open spec fn spec_dest_name_of(
    e: SrcEntry,
    ctx: Map<Seq<char>, SpecValue>,
    name: Seq<char>,
) -> bool {
    spec_names_to(e.path@, ctx, name, !(e.kind is Dir))
}

/// That `o` is a destination entry the walker may emit for source entry
/// `e`: the entry is kept, is no symbolic link, its path renders to `o`'s
/// path — which lands on no hook-source path, since cleanup deletes those —
/// and its contents pass through rendered exactly when the filter made the
/// path render-eligible — byte for byte otherwise, and always for binary
/// data.
pub open spec fn spec_entry_emits(
    e: SrcEntry,
    inclusions: Seq<String>,
    exclusions: Seq<String>,
    ignores: Seq<String>,
    hooks: Seq<String>,
    ctx: Map<Seq<char>, SpecValue>,
    o: SpecOut,
) -> bool {
    &&& !spec_skipped(e, inclusions, exclusions, ignores, hooks)
    &&& !(e.kind is Symlink)
    &&& spec_dest_name_of(e, ctx, o.path)
    &&& !spec_contains_string(hooks, o.path)
    &&& match e.kind {
        EntryKind::Dir => o.kind is Dir,
        EntryKind::Binary { content } => o.kind == SpecOutKind::Binary(content@),
        EntryKind::Text { content } => {
            if spec_classify(inclusions, exclusions, ignores, e.path@) is Rendered {
                o.kind matches SpecOutKind::Text(rc) && spec_renders_to(content@, ctx, rc)
            } else {
                o.kind == SpecOutKind::Text(content@)
            }
        },
        EntryKind::Symlink => false,
    }
}

/// That `outs` is a walk of `entries`: skipped entries contribute nothing,
/// every other entry contributes exactly one emitted destination entry, in
/// order — unless its rendered destination name lands on a hook-source
/// path, which the cleanup would delete, so nothing is emitted for it.
pub open spec fn spec_expand_rel(
    entries: Seq<SrcEntry>,
    inclusions: Seq<String>,
    exclusions: Seq<String>,
    ignores: Seq<String>,
    hooks: Seq<String>,
    ctx: Map<Seq<char>, SpecValue>,
    outs: Seq<SpecOut>,
) -> bool
    decreases entries.len(),
{
    if entries.len() == 0 {
        outs.len() == 0
    } else if spec_skipped(entries[0], inclusions, exclusions, ignores, hooks) {
        spec_expand_rel(entries.skip(1), inclusions, exclusions, ignores, hooks, ctx, outs)
    } else {
        ||| {
            &&& outs.len() > 0
            &&& spec_entry_emits(entries[0], inclusions, exclusions, ignores, hooks, ctx, outs[0])
            &&& spec_expand_rel(
                entries.skip(1),
                inclusions,
                exclusions,
                ignores,
                hooks,
                ctx,
                outs.skip(1),
            )
        }
        ||| {
            &&& !(entries[0].kind is Symlink)
            &&& (exists|nm: Seq<char>|
                #[trigger] spec_dest_name_of(entries[0], ctx, nm) && spec_contains_string(
                    hooks,
                    nm,
                ))
            &&& spec_expand_rel(entries.skip(1), inclusions, exclusions, ignores, hooks, ctx, outs)
        }
    }
}

/// Whether some planned file would land on a path that already exists.
pub open spec fn spec_collision(out: Seq<OutEntry>, existing: Seq<String>) -> bool {
    exists|i: int|
        0 <= i < out.len() && !((#[trigger] out[i]).kind is Dir) && spec_contains_string(
            existing,
            out[i].path@,
        )
}

/// The dry pass before anything is written: a planned file whose
/// destination path already exists fails the whole plan, so that nothing of
/// an unrelated tree is overwritten. Pre-existing directories are no
/// collision.
pub fn check_no_collisions(out: &Vec<OutEntry>, existing: &Vec<String>) -> (r: Result<
    (),
    GenError,
>)
    ensures
        r is Ok <==> !spec_collision(out@, existing@),
        r matches Err(e) ==> (e matches GenError::FileExists { path } && spec_contains_string(
            existing@,
            path@,
        )),
{
    let n = out.len();
    let mut i: usize = 0;
    while i < n
        invariant
            n == out@.len(),
            i <= n,
            forall|j: int|
                0 <= j < i ==> ((#[trigger] out@[j]).kind is Dir || !spec_contains_string(
                    existing@,
                    out@[j].path@,
                )),
        decreases n - i,
    {
        let is_dir = match &out[i].kind {
            OutKind::Dir => true,
            _ => false,
        };
        if !is_dir && contains_string(existing, out[i].path.as_str()) {
            return Err(
                GenError::FileExists { path: crate::strutil::to_owned_str(out[i].path.as_str()) },
            );
        }
        i += 1;
    }
    Ok(())
}

/// The views of the planned entries.
pub open spec fn spec_outs_view(s: Seq<OutEntry>) -> Seq<SpecOut> {
    s.map_values(|e: OutEntry| e@)
}

/// Walks the whole template tree and plans the destination tree, as
/// [`spec_expand_rel`] lays it down: skipped entries never appear, every
/// kept path — and the contents of render-eligible text — comes out
/// rendered, and contents without templating syntax come out byte for
/// byte. A symbolic link, or text the engine does not render, fails the
/// whole walk before anything is written, naming the entry's source path.
pub fn expand_tree(
    entries: Vec<SrcEntry>,
    inclusions: &Vec<String>,
    exclusions: &Vec<String>,
    ignores: &Vec<String>,
    hooks: &Vec<String>,
    values: &ValueMap,
) -> (r: Result<Vec<OutEntry>, GenError>)
    requires
        values.wf(),
    ensures
        match r {
            Ok(out) => spec_expand_rel(
                entries@,
                inclusions@,
                exclusions@,
                ignores@,
                hooks@,
                values@,
                spec_outs_view(out@),
            ),
            Err(e) => match e {
                GenError::SymlinkUnsupported { path } => exists|i: int|
                    0 <= i < entries@.len() && (#[trigger] entries@[i]).kind is Symlink
                        && entries@[i].path@ == path@ && !spec_skipped(
                        entries@[i],
                        inclusions@,
                        exclusions@,
                        ignores@,
                        hooks@,
                    ),
                GenError::RenderError { path } => exists|i: int|
                    {
                        &&& 0 <= i < entries@.len()
                        &&& (#[trigger] entries@[i]).path@ == path@
                        &&& !spec_skipped(entries@[i], inclusions@, exclusions@, ignores@, hooks@)
                        &&& !(entries@[i].kind is Symlink)
                        &&& (spec_has_template_markers(entries@[i].path@) || (entries@[i].kind
                            matches EntryKind::Text { content } && spec_classify(
                            inclusions@,
                            exclusions@,
                            ignores@,
                            entries@[i].path@,
                        ) is Rendered && spec_has_template_markers(content@)))
                    },
                _ => false,
            },
        },
{
    let ghost entries0 = entries@;
    let mut rest = entries;
    let mut out: Vec<OutEntry> = Vec::new();
    let ghost mut di: int = 0;
    proof {
        assert(rest@ == entries0);
        assert(entries0.skip(0) =~= entries0);
        assert forall|suffix: Seq<SpecOut>|
            spec_expand_rel(
                rest@,
                inclusions@,
                exclusions@,
                ignores@,
                hooks@,
                values@,
                suffix,
            ) implies spec_expand_rel(
            entries0,
            inclusions@,
            exclusions@,
            ignores@,
            hooks@,
            values@,
            spec_outs_view(out@) + suffix,
        ) by {
            assert(spec_outs_view(out@) + suffix =~= suffix);
        }
    }
    while rest.len() > 0
        invariant
            values.wf(),
            entries0 == entries@,
            0 <= di,
            di + rest@.len() == entries0.len(),
            entries0.skip(di) =~= rest@,
            forall|suffix: Seq<SpecOut>|
                spec_expand_rel(
                    rest@,
                    inclusions@,
                    exclusions@,
                    ignores@,
                    hooks@,
                    values@,
                    suffix,
                ) ==> spec_expand_rel(
                    entries0,
                    inclusions@,
                    exclusions@,
                    ignores@,
                    hooks@,
                    values@,
                    spec_outs_view(out@) + suffix,
                ),
        decreases rest@.len(),
    {
        let ghost rest0 = rest@;
        let ghost out0 = out@;
        let e = rest.remove(0);
        let ghost eg = e;
        proof {
            assert(rest@ =~= rest0.skip(1));
            assert(entries0[di] == eg);
        }
        let SrcEntry { path, kind } = e;
        let cls = classify_path(inclusions, exclusions, ignores, path.as_str());
        let skip = in_vcs_dir(path.as_str()) || cls == PathClass::Deleted || contains_string(
            hooks,
            path.as_str(),
        );
        if !skip {
            if let EntryKind::Symlink = kind {
                proof {
                    assert(0 <= di < entries0.len() && (entries0[di]).kind is Symlink
                        && entries0[di].path@ == path@ && !spec_skipped(
                        entries0[di],
                        inclusions@,
                        exclusions@,
                        ignores@,
                        hooks@,
                    ));
                }
                return Err(GenError::SymlinkUnsupported { path });
            }
            match render_content(path.as_str(), values) {
                None => {
                    proof {
                        assert(0 <= di < entries0.len() && entries0[di].path@ == path@
                            && !spec_skipped(
                            entries0[di],
                            inclusions@,
                            exclusions@,
                            ignores@,
                            hooks@,
                        ) && !(entries0[di].kind is Symlink) && spec_has_template_markers(
                            entries0[di].path@,
                        ));
                    }
                    return Err(GenError::RenderError { path });
                },
                Some(rendered) => {
                    let is_dir = match &kind {
                        EntryKind::Dir => true,
                        _ => false,
                    };
                    let name = if is_dir {
                        rendered
                    } else {
                        strip_suffix(rendered.as_str(), ".liquid")
                    };
                    proof {
                        assert(spec_dest_name_of(eg, values@, name@)) by {
                            assert(spec_renders_to(eg.path@, values@, rendered@));
                        }
                    }
                    if contains_string(hooks, name.as_str()) {
                        proof {
                            assert(rest0[0] == eg);
                            assert forall|suffix: Seq<SpecOut>|
                                spec_expand_rel(
                                    rest@,
                                    inclusions@,
                                    exclusions@,
                                    ignores@,
                                    hooks@,
                                    values@,
                                    suffix,
                                ) implies spec_expand_rel(
                                entries0,
                                inclusions@,
                                exclusions@,
                                ignores@,
                                hooks@,
                                values@,
                                spec_outs_view(out@) + suffix,
                            ) by {
                                assert(spec_expand_rel(
                                    rest0,
                                    inclusions@,
                                    exclusions@,
                                    ignores@,
                                    hooks@,
                                    values@,
                                    suffix,
                                ));
                            }
                        }
                    } else {
                    let emitted: OutEntry = match kind {
                        EntryKind::Dir => OutEntry { path: name, kind: OutKind::Dir },
                        EntryKind::Binary { content } => OutEntry {
                            path: name,
                            kind: OutKind::Binary { content },
                        },
                        EntryKind::Text { content } => {
                            if cls == PathClass::Rendered {
                                match render_content(content.as_str(), values) {
                                    None => {
                                        proof {
                                            assert(0 <= di < entries0.len() && entries0[di].path@
                                                == path@ && !spec_skipped(
                                                entries0[di],
                                                inclusions@,
                                                exclusions@,
                                                ignores@,
                                                hooks@,
                                            ) && !(entries0[di].kind is Symlink) && (entries0[di].kind
                                                matches EntryKind::Text { content: c }
                                                && spec_classify(
                                                inclusions@,
                                                exclusions@,
                                                ignores@,
                                                entries0[di].path@,
                                            ) is Rendered && spec_has_template_markers(c@)));
                                        }
                                        return Err(GenError::RenderError { path });
                                    },
                                    Some(rc) => OutEntry {
                                        path: name,
                                        kind: OutKind::Text { content: rc },
                                    },
                                }
                            } else {
                                OutEntry { path: name, kind: OutKind::Text { content } }
                            }
                        },
                        EntryKind::Symlink => {
                            proof {
                                assert(false);
                            }
                            return Err(GenError::SymlinkUnsupported { path });
                        },
                    };
                    let ghost og = emitted@;
                    out.push(emitted);
                    proof {
                        assert(spec_entry_emits(
                            eg,
                            inclusions@,
                            exclusions@,
                            ignores@,
                            hooks@,
                            values@,
                            og,
                        ));
                        assert(spec_outs_view(out@) =~= spec_outs_view(out0).push(og));
                        assert forall|suffix: Seq<SpecOut>|
                            spec_expand_rel(
                                rest@,
                                inclusions@,
                                exclusions@,
                                ignores@,
                                hooks@,
                                values@,
                                suffix,
                            ) implies spec_expand_rel(
                            entries0,
                            inclusions@,
                            exclusions@,
                            ignores@,
                            hooks@,
                            values@,
                            spec_outs_view(out@) + suffix,
                        ) by {
                            let bigger = seq![og] + suffix;
                            assert(bigger[0] == og);
                            assert(bigger.skip(1) =~= suffix);
                            assert(rest0[0] == eg);
                            assert(spec_expand_rel(
                                rest0,
                                inclusions@,
                                exclusions@,
                                ignores@,
                                hooks@,
                                values@,
                                bigger,
                            ));
                            assert(spec_outs_view(out0) + bigger =~= spec_outs_view(out@)
                                + suffix);
                        }
                    }
                    }
                },
            }
        } else {
            proof {
                assert(rest0[0] == eg);
                assert(spec_skipped(eg, inclusions@, exclusions@, ignores@, hooks@));
                assert forall|suffix: Seq<SpecOut>|
                    spec_expand_rel(
                        rest@,
                        inclusions@,
                        exclusions@,
                        ignores@,
                        hooks@,
                        values@,
                        suffix,
                    ) implies spec_expand_rel(
                    entries0,
                    inclusions@,
                    exclusions@,
                    ignores@,
                    hooks@,
                    values@,
                    spec_outs_view(out@) + suffix,
                ) by {
                    assert(spec_expand_rel(
                        rest0,
                        inclusions@,
                        exclusions@,
                        ignores@,
                        hooks@,
                        values@,
                        suffix,
                    ));
                }
            }
        }
        proof {
            di = di + 1;
            assert(entries0.skip(di) =~= rest@);
        }
    }
    proof {
        assert(spec_expand_rel(
            rest@,
            inclusions@,
            exclusions@,
            ignores@,
            hooks@,
            values@,
            Seq::<SpecOut>::empty(),
        ));
        assert(spec_outs_view(out@) + Seq::<SpecOut>::empty() =~= spec_outs_view(out@));
    }
    Ok(out)
}

} // verus!
