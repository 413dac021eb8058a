use m3u8_queue::cli_output::{
    checked_total, cli_output_page_from_repository, index_from_chunk_counts, is_current_format,
    next_chunk_file_name, normalize_limit, page_window, record_line_append, reconcile_index_tail,
    sanitize_task_id, tail_window, terminal_state, CliChunkMeta, CliOutputIndex, CliOutputStore,
    TerminalActiveLine,
};

fn index(counts: &[usize]) -> CliOutputIndex {
    index_from_chunk_counts(&counts.to_vec()).expect("fits")
}

fn chunk_lines(start: usize, count: usize) -> Vec<String> {
    (start..start + count).map(|i| format!("line {i}")).collect()
}

fn load(plan: &m3u8_queue::cli_output::ReadPlan, sizes: &[usize]) -> Vec<Vec<String>> {
    plan.slices
        .iter()
        .map(|s| {
            let before: usize = sizes[..s.chunk_index].iter().sum();
            chunk_lines(before, sizes[s.chunk_index])
        })
        .collect()
}

#[test]
fn tail_returns_recent_lines_without_losing_total() {
    let sizes = [200, 200, 50];
    let idx = index(&sizes);
    assert_eq!(idx.total, 450);
    let store = CliOutputStore::new("cli-output".to_string());
    let plan = store.tail(&idx, 3);
    let loaded = load(&plan, &sizes);
    let page = plan.into_page(loaded).expect("page");
    assert_eq!(page.lines, vec!["line 447", "line 448", "line 449"]);
    assert_eq!(page.total, 450);
    assert_eq!(page.offset, 447);
    assert!(page.has_more_before);
    assert!(!page.has_more_after);
}

#[test]
fn page_reads_middle_slice() {
    let sizes = [200, 200, 50];
    let idx = index(&sizes);
    let store = CliOutputStore::new("cli-output".to_string());
    let plan = store.page(&idx, 198, 4);
    assert_eq!(plan.slices.len(), 2);
    let loaded = load(&plan, &sizes);
    let page = plan.into_page(loaded).expect("page");
    assert_eq!(page.lines, vec!["line 198", "line 199", "line 200", "line 201"]);
    assert_eq!(page.next_offset, 202);
    assert!(page.has_more_before && page.has_more_after);
}

#[test]
fn page_reads_only_requested_chunks() {
    let sizes = [200, 200, 200];
    let idx = index(&sizes);
    let store = CliOutputStore::new("cli-output".to_string());
    let plan = store.page(&idx, 250, 10);
    assert_eq!(plan.slices.len(), 1);
    assert_eq!(plan.slices[0].chunk_index, 1);
    assert_eq!(plan.slices[0].file, "000002.txt");
}

#[test]
fn short_chunk_file_is_an_error() {
    let idx = index(&[5]);
    let store = CliOutputStore::new("cli-output".to_string());
    let plan = store.page(&idx, 0, 10);
    assert!(plan.into_page(vec![chunk_lines(0, 3)]).is_err());
}

#[test]
fn limits_are_normalized() {
    assert_eq!(normalize_limit(0), 200);
    assert_eq!(normalize_limit(5), 5);
    assert_eq!(normalize_limit(100_000), 2000);
    let w = page_window(10, 20, 5);
    assert_eq!((w.start, w.end), (10, 10));
    let w = tail_window(10, 3);
    assert_eq!((w.start, w.end), (7, 10));
}

#[test]
fn active_line_is_stored_in_memory_only() {
    let mut store = CliOutputStore::new("cli-output".to_string());
    assert_eq!(store.get_active_line("task-1"), None);
    store.set_active_line("task-1", "50%".to_string());
    store.set_active_line("task-2", "10%".to_string());
    store.set_active_line("task-1", "60%".to_string());
    assert_eq!(store.get_active_line("task-1").as_deref(), Some("60%"));
    store.clear_active_line("task-1");
    assert_eq!(store.get_active_line("task-1"), None);
    assert_eq!(store.get_active_line("task-2").as_deref(), Some("10%"));
}

#[test]
fn appended_lines_fill_chunks_in_order() {
    let mut idx = CliOutputIndex { total: 0, chunks: Vec::new() };
    assert_eq!(record_line_append(&mut idx), "000001.txt");
    for _ in 0..199 {
        assert_eq!(record_line_append(&mut idx), "000001.txt");
    }
    assert_eq!(record_line_append(&mut idx), "000002.txt");
    assert_eq!(idx.total, 201);
    assert_eq!(idx.chunks.len(), 2);
    assert_eq!(idx.chunks[1].count, 1);
}

#[test]
fn reconciling_adds_unindexed_chunks() {
    let mut idx = CliOutputIndex {
        total: 3,
        chunks: vec![CliChunkMeta { file: "000001.txt".to_string(), count: 3 }],
    };
    let changed = reconcile_index_tail(&mut idx, 200, &vec![0, 7]);
    assert!(changed);
    assert_eq!(idx.chunks[0].count, 200);
    assert_eq!(idx.chunks.len(), 2);
    assert_eq!(idx.chunks[1].file, "000003.txt");
    assert_eq!(idx.chunks[1].count, 7);
    assert_eq!(checked_total(&idx.chunks), Some(207));
}

#[test]
fn task_ids_are_made_safe_for_directories() {
    assert_eq!(sanitize_task_id("abc-123_X"), "abc-123_X");
    assert_eq!(sanitize_task_id("../evil id"), "evilid");
    assert_eq!(sanitize_task_id("//"), "task");
}

#[test]
fn format_marker_and_chunk_names() {
    assert!(is_current_format(" 2\n"));
    assert!(!is_current_format("1"));
    assert_eq!(next_chunk_file_name(12), "000012.txt");
}

#[test]
fn terminal_state_combines_page_and_active_line() {
    let idx = index(&[3]);
    let store = CliOutputStore::new("cli-output".to_string());
    let page = store.tail(&idx, 2).into_page(vec![chunk_lines(0, 3)]).unwrap();
    let state = terminal_state(page.clone(), TerminalActiveLine::Present("busy".to_string()));
    assert_eq!(state.committed_lines, vec!["line 1", "line 2"]);
    assert_eq!(state.active_line, "busy");
    assert_eq!(state.offset, 1);
    let state = terminal_state(page.clone(), TerminalActiveLine::Missing);
    assert_eq!(state.active_line, "");
    let cli = cli_output_page_from_repository(page);
    assert_eq!(cli.total, 3);
    assert_eq!(cli.next_offset, 3);
}

/// Output kept in memory: the chunk files by name, filled as the index says.
fn append_lines(lines: &[String]) -> (CliOutputIndex, Vec<(String, Vec<String>)>) {
    let mut idx = CliOutputIndex { total: 0, chunks: Vec::new() };
    let mut files: Vec<(String, Vec<String>)> = Vec::new();
    for line in lines {
        let file = record_line_append(&mut idx);
        match files.iter_mut().find(|(n, _)| *n == file) {
            Some((_, content)) => content.push(line.clone()),
            None => files.push((file, vec![line.clone()])),
        }
    }
    (idx, files)
}

fn read(plan: m3u8_queue::cli_output::ReadPlan, files: &[(String, Vec<String>)]) -> Vec<String> {
    let loaded: Vec<Vec<String>> = plan
        .slices
        .iter()
        .map(|s| files.iter().find(|(n, _)| *n == s.file).map(|(_, c)| c.clone()).unwrap_or_default())
        .collect();
    plan.into_page(loaded).ok().expect("chunks long enough").lines
}

#[test]
fn pages_and_tails_read_back_the_appended_lines() {
    let lines: Vec<String> = (0..450).map(|i| format!("out {i}")).collect();
    let (idx, files) = append_lines(&lines);
    assert_eq!(idx.total, 450);
    let store = CliOutputStore::new("out".to_string());
    assert_eq!(read(store.page(&idx, 190, 20), &files), lines[190..210].to_vec());
    assert_eq!(read(store.tail(&idx, 1), &files), vec!["out 449".to_string()]);
    let (more, more_files) = append_lines(&[lines.clone(), vec!["last".to_string()]].concat());
    assert_eq!(more.total, 451);
    assert_eq!(read(store.tail(&more, 1), &more_files), vec!["last".to_string()]);
    assert_eq!(read(store.page(&more, 0, 450), &more_files), lines[0..450].to_vec());
}

#[test]
fn appending_a_line_recovers_unindexed_chunks_and_writes_to_the_indexed_file() {
    let files: std::cell::RefCell<Vec<(String, Vec<String>)>> = std::cell::RefCell::new(vec![
        (next_chunk_file_name(1), (0..200).map(|i| format!("a{i}")).collect()),
        (next_chunk_file_name(2), vec!["b0".to_string()]),
    ]);
    let count = |f: &String| -> Result<usize, m3u8_queue::app_error::AppError> {
        Ok(files.borrow().iter().find(|(n, _)| n == f).map(|(_, l)| l.len()).unwrap_or(0))
    };
    let counts_from = |first: usize| -> Result<Vec<usize>, m3u8_queue::app_error::AppError> {
        let files = files.borrow();
        let mut out = Vec::new();
        let mut k = first;
        while let Some((_, l)) = files.iter().find(|(n, _)| *n == next_chunk_file_name(k)) {
            out.push(l.len());
            k += 1;
        }
        Ok(out)
    };
    let mut idx = CliOutputIndex { total: 0, chunks: Vec::new() };
    m3u8_queue::cli_output::append_output_line(&mut idx, &"b1".to_string(), count, counts_from, |f: &String, l: &String| {
        let mut files = files.borrow_mut();
        match files.iter_mut().find(|(n, _)| n == f) {
            Some((_, lines)) => lines.push(l.clone()),
            None => files.push((f.clone(), vec![l.clone()])),
        }
        Ok(())
    })
    .expect("appended");
    assert_eq!(idx.total, 202);
    assert_eq!(idx.chunks.len(), 2);
    assert_eq!(idx.chunks[1].count, 2);
    assert_eq!(files.borrow()[1].1, vec!["b0".to_string(), "b1".to_string()]);
}
