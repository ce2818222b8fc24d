//! The analysis window: a fixed-length buffer that always holds the most
//! recent samples of a stream.

use vstd::prelude::*;

verus! {

/// The last `n` items of `s` (all of `s` when it is shorter).
pub open spec fn last_n<T>(s: Seq<T>, n: nat) -> Seq<T> {
    if s.len() <= n {
        s
    } else {
        s.subrange(s.len() - n, s.len() as int)
    }
}

/// Slides `chunk` into the window: afterwards the window holds the last
/// `window.len()` items of its old contents followed by `chunk`. A chunk at
/// least as long as the window replaces it with the chunk's tail.
pub fn slide_window<T: Copy>(window: &mut Vec<T>, chunk: &[T])
    ensures
        final(window)@ == last_n(old(window)@ + chunk@, old(window)@.len()),
        final(window)@.len() == old(window)@.len(),
{
    let n_win = window.len();
    let n = chunk.len();
    let ghost old_w = window@;
    let ghost all = old_w + chunk@;
    if n >= n_win {
        let skip = n - n_win;
        let mut i: usize = 0;
        while i < n_win
            invariant
                i <= n_win,
                n_win == window@.len(),
                n_win == old_w.len(),
                skip == n - n_win,
                n == chunk@.len(),
                forall|j: int| 0 <= j < i ==> window@[j] == chunk@[skip + j],
            decreases n_win - i,
        {
            window.set(i, chunk[skip + i]);
            i = i + 1;
        }
        assert(window@ =~= last_n(all, n_win as nat));
    } else {
        let keep = n_win - n;
        let mut i: usize = 0;
        while i < keep
            invariant
                i <= keep,
                keep == n_win - n,
                n_win == window@.len(),
                n_win == old_w.len(),
                forall|j: int| 0 <= j < i ==> window@[j] == old_w[j + n],
                forall|j: int| i <= j < n_win ==> window@[j] == old_w[j],
            decreases keep - i,
        {
            let v = window[i + n];
            window.set(i, v);
            i = i + 1;
        }
        let mut k: usize = 0;
        while k < n
            invariant
                k <= n,
                keep == n_win - n,
                n == chunk@.len(),
                n_win == window@.len(),
                forall|j: int| 0 <= j < keep ==> window@[j] == old_w[j + n],
                forall|j: int| 0 <= j < k ==> window@[keep + j] == chunk@[j],
            decreases n - k,
        {
            window.set(keep + k, chunk[k]);
            k = k + 1;
        }
        assert(window@ =~= last_n(all, n_win as nat));
    }
}

} // verus!
