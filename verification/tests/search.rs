use polars_metal::vector_search::{
    vector_search_topk, vector_search_topk_tiled, Metric, SearchPlan, SearchStep, TiledSearch,
    TopkDispatch, OP_COSINE, OP_KNN_L2, TILE_BYTES,
};

/// Cosine similarity of a query with each row of a corpus.
fn cosine(q: &[f32], corpus: &[f32], d: usize) -> Vec<f32> {
    let norm = |v: &[f32]| v.iter().map(|x| x * x).sum::<f32>().sqrt();
    corpus
        .chunks(d)
        .map(|row| {
            let dot: f32 = row.iter().zip(q).map(|(a, b)| a * b).sum();
            dot / (norm(row) * norm(q))
        })
        .collect()
}

/// An unordered top-`k` of the scores, larger first, as a partition gives it.
fn topk(scores: &[f32], k: usize) -> (Vec<i32>, Vec<u32>) {
    let mut order: Vec<usize> = (0..scores.len()).collect();
    order.sort_by(|a, b| scores[*b].total_cmp(&scores[*a]));
    order.truncate(k);
    order.reverse();
    (
        order.iter().map(|i| *i as i32).collect(),
        order.iter().map(|i| scores[*i].to_bits()).collect(),
    )
}

#[test]
fn tiling_matches_untiled() {
    // 6 corpus rows, force a tiny tile size so multiple tiles run.
    let q = [1.0f32, 0.0];
    let c = [
        1.0f32, 0.0, 0.0, 1.0, 1.0, 1.0, 0.9, 0.1, 0.2, 0.2, 0.95, 0.0,
    ]; // (6,2)
    let (i_ref, s_ref) = topk(&cosine(&q, &c, 2), 3);
    let mut search = match vector_search_topk_tiled(OP_COSINE, 1, 6, 3, 2) {
        SearchPlan::Tiled(s) => s,
        SearchPlan::AtOnce => panic!("6 rows in tiles of 2 are tiled"),
    };
    let mut tiles = 0;
    while let SearchStep::Search { offset, rows, k } = search.next() {
        let from = offset as usize * 2;
        let to = (offset + rows) as usize * 2;
        let (idx, val) = topk(&cosine(&q, &c[from..to], 2), k as usize);
        search.accept(&idx, &val);
        tiles += 1;
    }
    assert_eq!(tiles, 3);
    let (i_t, s_t) = search.finish();
    // Compare as score-sorted sets.
    let norm = |idx: &[i32], sc: &[u32]| {
        let mut p: Vec<(i32, i32)> = idx
            .iter()
            .zip(sc)
            .map(|(i, s)| (*i, (f32::from_bits(*s) * 1e4) as i32))
            .collect();
        p.sort();
        p
    };
    assert_eq!(norm(&i_ref, &s_ref), norm(&i_t, &s_t));
}

#[test]
fn a_tile_that_holds_the_corpus_is_searched_at_once() {
    assert!(matches!(
        vector_search_topk_tiled(OP_KNN_L2, 1, 6, 3, 6),
        SearchPlan::AtOnce
    ));
    assert!(matches!(
        vector_search_topk_tiled(OP_KNN_L2, 1, 6, -3, 6),
        SearchPlan::AtOnce
    ));
}

#[test]
fn ties_go_to_the_smaller_index_and_nan_is_ordered() {
    let mut search = TiledSearch::new(OP_KNN_L2, 2, 4, 2, 2);
    assert_eq!(
        search.next(),
        SearchStep::Search {
            offset: 0,
            rows: 2,
            k: 2
        }
    );
    let bits = |v: [f32; 4]| v.iter().map(|x| x.to_bits()).collect::<Vec<u32>>();
    search.accept(&vec![1, 0, 0, 1], &bits([1.0, 1.0, f32::NAN, -1.0]));
    search.accept(&vec![0, 1, 0, 1], &bits([1.0, 0.5, 0.0, -0.0]));
    assert_eq!(search.next(), SearchStep::Done);
    let (idx, val) = search.finish();
    assert_eq!(idx, vec![3, 0, 1, 3]);
    assert_eq!(val, bits([0.5, 1.0, -1.0, -0.0]));
}

#[test]
fn more_hits_than_rows_are_not_asked_for() {
    let search = TiledSearch::new(OP_COSINE, 1, 3, 10, 2);
    assert_eq!(search.k, 3);
    assert_eq!(
        search.next(),
        SearchStep::Search {
            offset: 0,
            rows: 2,
            k: 2
        }
    );
}

#[test]
fn metrics_are_chosen_by_code() {
    assert_eq!(
        vector_search_topk(OP_COSINE, 2),
        Ok(TopkDispatch {
            metric: Metric::Cosine,
            negated: true,
            kth: 1,
            k: 2
        })
    );
    assert_eq!(
        vector_search_topk(OP_KNN_L2, 5),
        Ok(TopkDispatch {
            metric: Metric::SquaredDistance,
            negated: false,
            kth: 4,
            k: 5
        })
    );
    assert_eq!(
        vector_search_topk(OP_KNN_L2, -4).map(|d| (d.kth, d.k)),
        Ok((-5, -4))
    );
    assert_eq!(
        vector_search_topk(2, 5),
        Err("unknown vector-search op".to_string())
    );
    assert_eq!(TILE_BYTES, 256 * 1024 * 1024);
}

#[test]
fn merged_hits_come_best_first_query_by_query() {
    let bits = |v: &[f32]| v.iter().map(|x| x.to_bits()).collect::<Vec<u32>>();
    let mut search = TiledSearch::new(OP_COSINE, 2, 5, 2, 3);
    search.accept(&vec![2, 0, 0, 1], &bits(&[0.1, 0.7, 0.9, 0.8]));
    search.accept(&vec![0, 1, 1, 0], &bits(&[0.3, 0.5, 0.2, 0.95]));
    let (idx, val) = search.finish();
    assert_eq!(idx, vec![0, 4, 3, 0]);
    assert_eq!(val, bits(&[0.7, 0.5, 0.95, 0.9]));
}
