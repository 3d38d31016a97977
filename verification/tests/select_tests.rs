use sppm::elem::Elem;
use sppm::select::floydrivest;

fn pt(x: u64, y: u64, z: u64, id: usize) -> Elem {
    Elem { min_pos: [x, y, z], max_pos: [x, y, z], id }
}

fn next_lcg(state: &mut u64) -> u64 {
    *state = state.wrapping_mul(6364136223846793005).wrapping_add(1442695040888963407);
    *state >> 16
}

fn lcg_elems(n: usize, seed: u64) -> Vec<Elem> {
    let mut state = seed;
    let mut v = Vec::new();
    for id in 0..n {
        let x = next_lcg(&mut state) % 1000;
        let y = next_lcg(&mut state) % 1000;
        let z = next_lcg(&mut state) % 1000;
        v.push(pt(x, y, z, id));
    }
    v
}

fn keys(v: &[Elem], axis: usize) -> Vec<u64> {
    v.iter().map(|e| e.min_pos[axis]).collect()
}

fn sorted_keys(v: &[Elem], axis: usize) -> Vec<u64> {
    let mut k = keys(v, axis);
    k.sort();
    k
}

#[test]
fn floydrivest_places_median() {
    let mut v = lcg_elems(9, 7);
    let expect = sorted_keys(&v, 0)[4];
    floydrivest(&mut v, 4, 0, 8, 0);
    assert_eq!(v[4].min_pos[0], expect);
    for i in 0..4 {
        assert!(v[i].min_pos[0] <= v[4].min_pos[0]);
    }
    for i in 5..9 {
        assert!(v[4].min_pos[0] <= v[i].min_pos[0]);
    }
}

#[test]
fn floydrivest_leaves_outside_of_window_alone() {
    let mut v = lcg_elems(20, 99);
    let before = v.clone();
    floydrivest(&mut v, 4, 2, 6, 1);
    for i in (0..2).chain(7..20) {
        assert_eq!(v[i].min_pos, before[i].min_pos);
        assert_eq!(v[i].id, before[i].id);
    }
    let mut window_now: Vec<usize> = v[2..=6].iter().map(|e| e.id).collect();
    let mut window_before: Vec<usize> = before[2..=6].iter().map(|e| e.id).collect();
    window_now.sort();
    window_before.sort();
    assert_eq!(window_now, window_before);
}

#[test]
fn floydrivest_partitions_a_window() {
    let mut v = lcg_elems(30, 3);
    floydrivest(&mut v, 10, 5, 25, 2);
    for i in 5..10 {
        assert!(v[i].min_pos[2] <= v[10].min_pos[2]);
    }
    for i in 11..=25 {
        assert!(v[10].min_pos[2] <= v[i].min_pos[2]);
    }
}

#[test]
fn floydrivest_single_item_window() {
    let mut v = lcg_elems(5, 11);
    let before = v.clone();
    floydrivest(&mut v, 3, 3, 3, 0);
    for i in 0..5 {
        assert_eq!(v[i].id, before[i].id);
    }
}

#[test]
fn floydrivest_agrees_with_nth_element() {
    for seed in [1u64, 2, 3, 4, 5] {
        let v = lcg_elems(101, seed);
        let mut ours = v.clone();
        floydrivest(&mut ours, 50, 0, 100, 0);
        let mut theirs = v.clone();
        adqselect::nth_element(&mut theirs, 50, &mut |a: &Elem, b: &Elem| {
            a.min_pos[0].cmp(&b.min_pos[0])
        });
        assert_eq!(ours[50].min_pos[0], theirs[50].min_pos[0]);
    }
}

#[test]
fn floydrivest_with_equal_keys() {
    let mut v: Vec<Elem> = (0..10).map(|id| pt(5, id as u64, 0, id)).collect();
    floydrivest(&mut v, 5, 0, 9, 0);
    assert_eq!(v[5].min_pos[0], 5);
    let mut ids: Vec<usize> = v.iter().map(|e| e.id).collect();
    ids.sort();
    assert_eq!(ids, (0..10).collect::<Vec<usize>>());
}
