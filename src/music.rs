use vstd::prelude::*;

verus! {

/// Song position `i` holds a note that the player has collected.
pub open spec fn playable(song: Seq<Option<usize>>, collected: Seq<usize>, i: int) -> bool {
    0 <= i < song.len() && song[i] is Some && collected.contains(song[i]->Some_0)
}

/// Whether `note` is among the collected notes.
pub fn has_note(collected: &Vec<usize>, note: usize) -> (r: bool)
    ensures
        r == collected@.contains(note),
{
    let mut i: usize = 0;
    while i < collected.len()
        invariant
            i <= collected@.len(),
            forall|j: int| 0 <= j < i ==> collected@[j] != note,
        decreases collected@.len() - i,
    {
        if collected[i] == note {
            return true;
        }
        i = i + 1;
    }
    false
}

/// The next note to play: from song position `index` on, the first position
/// whose note has been collected, and the position to resume from next time
/// (just after it, or the start of the song once the end is reached). Rests
/// and notes not yet collected are passed over. With nothing playable left,
/// nothing is played and the song starts over.
pub fn next_song_note(song: &Vec<Option<usize>>, collected: &Vec<usize>, index: usize) -> (r: (
    Option<usize>,
    usize,
))
    ensures
        match r.0 {
            Some(p) => {
                &&& index <= p < song@.len()
                &&& playable(song@, collected@, p as int)
                &&& forall|q: int| index <= q < p ==> !playable(song@, collected@, q)
                &&& r.1 == if p + 1 < song@.len() {
                    p + 1
                } else {
                    0
                }
            },
            None => {
                &&& forall|q: int| index <= q < song@.len() ==> !playable(song@, collected@, q)
                &&& r.1 == 0
            },
        },
{
    let mut i: usize = index;
    while i < song.len()
        invariant
            index <= i,
            forall|q: int| index <= q < i ==> !playable(song@, collected@, q),
        decreases song@.len() - i,
    {
        if let Some(note) = song[i] {
            if has_note(collected, note) {
                let next: usize = if i + 1 < song.len() {
                    i + 1
                } else {
                    0
                };
                return (Some(i), next);
            }
        }
        i = i + 1;
    }
    (None, 0)
}

/// The distinct notes of a song, each once.
pub fn distinct_notes(song: &Vec<Option<usize>>) -> (r: Vec<usize>)
    ensures
        forall|j: int, k: int| 0 <= j < k < r@.len() ==> r@[j] != r@[k],
        forall|k: int| 0 <= k < r@.len() ==> song@.contains(Some(#[trigger] r@[k])),
        forall|i: int| 0 <= i < song@.len() && (#[trigger] song@[i]) is Some ==> r@.contains(
            song@[i]->Some_0,
        ),
{
    let mut r: Vec<usize> = Vec::new();
    let mut i: usize = 0;
    while i < song.len()
        invariant
            i <= song@.len(),
            forall|j: int, k: int| 0 <= j < k < r@.len() ==> r@[j] != r@[k],
            forall|k: int| 0 <= k < r@.len() ==> song@.contains(Some(#[trigger] r@[k])),
            forall|q: int| 0 <= q < i && (#[trigger] song@[q]) is Some ==> r@.contains(
                song@[q]->Some_0,
            ),
        decreases song@.len() - i,
    {
        if let Some(note) = song[i] {
            if !has_note(&r, note) {
                let ghost before = r@;
                r.push(note);
                proof {
                    assert(song@[i as int] == Some(note));
                    assert forall|q: int|
                        0 <= q < i + 1 && (#[trigger] song@[q]) is Some implies r@.contains(
                        song@[q]->Some_0,
                    ) by {
                        if q < i {
                            let k = choose|k: int|
                                0 <= k < before.len() && before[k] == song@[q]->Some_0;
                            assert(r@[k] == song@[q]->Some_0);
                        } else {
                            assert(r@[before.len() as int] == note);
                        }
                    }
                }
            }
        }
        i = i + 1;
    }
    r
}

} // verus!
