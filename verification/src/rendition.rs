//! The choice of a rendition: which of the variants that a multivariant
//! playlist lists is played for a given minimum height.

use vstd::prelude::*;

verus! {

/// One variant of a multivariant playlist.
#[derive(Debug)]
pub struct Rendition {
    /// Whether the variant holds I-frames only; such a variant is never
    /// played.
    pub iframes_only: bool,
    /// The vertical resolution in pixels, where the playlist states one.
    pub height: Option<u64>,
    /// Where the media playlist of the variant is found.
    pub uri: String,
}

/// Why no rendition could be named.
#[derive(Debug)]
pub enum ResolveError {
    /// The playlist lists no rendition that can be played.
    NoRendition,
}

impl ResolveError {
    /// The error in words.
    pub fn message(&self) -> (text: String)
        ensures
            text@ == "no rendition available"@,
    {
        match self {
            ResolveError::NoRendition => "no rendition available".to_owned(),
        }
    }
}

/// What a [`Rendition`] stands for.
pub struct RenditionView {
    pub iframes_only: bool,
    pub height: Option<u64>,
    pub uri: Seq<char>,
}

impl View for Rendition {
    type V = RenditionView;

    open spec fn view(&self) -> RenditionView {
        RenditionView { iframes_only: self.iframes_only, height: self.height, uri: self.uri@ }
    }
}

/// What each rendition of `renditions` stands for.
pub open spec fn views(renditions: Seq<Rendition>) -> Seq<RenditionView> {
    renditions.map_values(|rendition: Rendition| rendition@)
}

impl RenditionView {
    /// Whether the rendition can be played at all.
    pub open spec fn playable(self) -> bool {
        !self.iframes_only
    }

    /// The place of the rendition in the ascending order of heights: one
    /// without a stated height comes before all that state one.
    pub open spec fn rank(self) -> int {
        match self.height {
            None => -1,
            Some(height) => height as int,
        }
    }

    /// Whether the rendition can be played and is at least `minimum` high.
    pub open spec fn qualifies(self, minimum: u32) -> bool {
        self.playable() && self.rank() >= minimum
    }
}

/// Whether `i` comes before `j` when the renditions are put in ascending
/// order of height and renditions of one height keep their order.
pub open spec fn precedes(renditions: Seq<RenditionView>, i: int, j: int) -> bool {
    renditions[i].rank() < renditions[j].rank() || (renditions[i].rank() == renditions[j].rank()
        && i <= j)
}

/// Whether some rendition qualifies.
pub open spec fn any_qualifies(renditions: Seq<RenditionView>, minimum: u32) -> bool {
    exists|j: int| 0 <= j < renditions.len() && #[trigger] renditions[j].qualifies(minimum)
}

/// Whether some rendition can be played.
pub open spec fn any_playable(renditions: Seq<RenditionView>) -> bool {
    exists|j: int| 0 <= j < renditions.len() && #[trigger] renditions[j].playable()
}

/// Whether `i` is the primary choice: the first, in ascending order of
/// height, of the renditions that qualify.
pub open spec fn is_primary(renditions: Seq<RenditionView>, minimum: u32, i: int) -> bool {
    &&& 0 <= i < renditions.len()
    &&& renditions[i].qualifies(minimum)
    &&& forall|j: int|
        0 <= j < renditions.len() && #[trigger] renditions[j].qualifies(minimum) ==> precedes(
            renditions,
            i,
            j,
        )
}

/// Whether `i` is the fallback: the last, in ascending order of height, of
/// the renditions that can be played.
pub open spec fn is_fallback(renditions: Seq<RenditionView>, i: int) -> bool {
    &&& 0 <= i < renditions.len()
    &&& renditions[i].playable()
    &&& forall|j: int|
        0 <= j < renditions.len() && #[trigger] renditions[j].playable() ==> precedes(
            renditions,
            j,
            i,
        )
}

/// Whether `i` is the rendition to play: the primary choice where some
/// rendition qualifies, the fallback where none does.
pub open spec fn is_choice(renditions: Seq<RenditionView>, minimum: u32, i: int) -> bool {
    if any_qualifies(renditions, minimum) {
        is_primary(renditions, minimum, i)
    } else {
        is_fallback(renditions, i)
    }
}

/// There is at most one rendition to play.
pub proof fn law_choice_is_unique(
    renditions: Seq<RenditionView>,
    minimum: u32,
    i: int,
    j: int,
)
    requires
        is_choice(renditions, minimum, i),
        is_choice(renditions, minimum, j),
    ensures
        i == j,
{
    if any_qualifies(renditions, minimum) {
        assert(precedes(renditions, i, j));
        assert(precedes(renditions, j, i));
    } else {
        assert(precedes(renditions, i, j));
        assert(precedes(renditions, j, i));
    }
}

/// The index of the rendition to play for `minimum_height`, if any can be
/// played.
///
/// With the renditions in ascending order of height, equal heights in the
/// order given and a rendition without a height before all others, the
/// choice is the first that is at least `minimum_height` high; where none
/// is, it is the last of all.
pub fn select_rendition(renditions: &Vec<Rendition>, minimum_height: u32) -> (choice: Option<
    usize,
>)
    ensures
        choice is None <==> !any_playable(views(renditions@)),
        choice matches Some(index) ==> is_choice(
            views(renditions@),
            minimum_height,
            index as int,
        ),
{
    let ghost all = views(renditions@);
    let mut primary: Option<usize> = None;
    let mut fallback: Option<usize> = None;
    let mut index: usize = 0;
    while index < renditions.len()
        invariant
            index <= renditions@.len(),
            all == views(renditions@),
            all.len() == renditions@.len(),
            primary matches Some(p) ==> p < index && is_primary(
                all.take(index as int),
                minimum_height,
                p as int,
            ),
            primary is None ==> !any_qualifies(all.take(index as int), minimum_height),
            fallback matches Some(f) ==> f < index && is_fallback(
                all.take(index as int),
                f as int,
            ),
            fallback is None ==> !any_playable(all.take(index as int)),
        decreases renditions@.len() - index,
    {
        let rendition = &renditions[index];
        let ghost seen = all.take(index as int);
        let ghost more = all.take(index + 1);
        proof {
            assert(rendition@ == all[index as int]);
            assert(forall|j: int| 0 <= j < index ==> more[j] == seen[j]);
            assert(more[index as int] == all[index as int]);
        }
        let mut new_primary = primary;
        let mut new_fallback = fallback;
        if !rendition.iframes_only {
            let high_enough = match rendition.height {
                Some(height) => height >= minimum_height as u64,
                None => false,
            };
            if high_enough {
                new_primary =
                match primary {
                    None => Some(index),
                    Some(p) => {
                        if less_high(&renditions[index], &renditions[p]) {
                            Some(index)
                        } else {
                            Some(p)
                        }
                    },
                };
            }
            new_fallback =
            match fallback {
                None => Some(index),
                Some(f) => {
                    if less_high(&renditions[index], &renditions[f]) {
                        Some(f)
                    } else {
                        Some(index)
                    }
                },
            };
        }
        proof {
            assert(all[index as int].playable() == !rendition.iframes_only);
            if new_primary is Some {
                let p = new_primary->Some_0;
                assert forall|j: int|
                    0 <= j < more.len() && #[trigger] more[j].qualifies(
                        minimum_height,
                    ) implies precedes(more, p as int, j) by {
                    if j < index {
                        assert(seen[j].qualifies(minimum_height));
                        let q = primary->Some_0;
                        assert(precedes(seen, q as int, j));
                    }
                }
                assert(is_primary(more, minimum_height, p as int));
            } else {
                assert forall|j: int| 0 <= j < more.len() implies !(#[trigger] more[j]).qualifies(
                    minimum_height,
                ) by {
                    if j < index {
                        assert(seen[j] == more[j]);
                    }
                }
            }
            if new_fallback is Some {
                let f = new_fallback->Some_0;
                assert forall|j: int|
                    0 <= j < more.len() && #[trigger] more[j].playable() implies precedes(
                    more,
                    j,
                    f as int,
                ) by {
                    if j < index {
                        assert(seen[j].playable());
                        let g = fallback->Some_0;
                        assert(precedes(seen, j, g as int));
                    }
                }
                assert(is_fallback(more, f as int));
            } else {
                assert forall|j: int| 0 <= j < more.len() implies !(#[trigger] more[j]).playable() by {
                    if j < index {
                        assert(seen[j] == more[j]);
                    }
                }
            }
        }
        primary = new_primary;
        fallback = new_fallback;
        index = index + 1;
    }
    proof {
        assert(all.take(index as int) =~= all);
        if primary is Some {
            let p = primary->Some_0 as int;
            assert(all[p].qualifies(minimum_height));
            assert(all[p].playable());
        }
    }
    match primary {
        Some(p) => Some(p),
        None => fallback,
    }
}

/// The rendition to play for `minimum_height`, taken out of `renditions`.
/// Fails exactly where none of them can be played.
pub fn pick_rendition(renditions: Vec<Rendition>, minimum_height: u32) -> (picked: Result<
    Rendition,
    ResolveError,
>)
    ensures
        picked is Err <==> !any_playable(views(renditions@)),
        picked matches Err(error) ==> error is NoRendition,
        picked matches Ok(rendition) ==> exists|index: int|
            #[trigger] is_choice(views(renditions@), minimum_height, index) && rendition
                == renditions@[index],
{
    let mut renditions = renditions;
    let ghost all = renditions@;
    match select_rendition(&renditions, minimum_height) {
        None => Err(ResolveError::NoRendition),
        Some(index) => {
            let rendition = renditions.swap_remove(index);
            proof {
                assert(is_choice(views(all), minimum_height, index as int));
            }
            Ok(rendition)
        },
    }
}

/// Whether `a` comes strictly before `b` in the order of heights.
fn less_high(a: &Rendition, b: &Rendition) -> (less: bool)
    ensures
        less == (a@.rank() < b@.rank()),
{
    match (a.height, b.height) {
        (None, None) => false,
        (None, Some(_)) => true,
        (Some(_), None) => false,
        (Some(x), Some(y)) => x < y,
    }
}

} // verus!
