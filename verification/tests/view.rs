use my_agent::daemon::approval::PendingApprovalInfo;
use my_agent::daemon::protocol::RequestId;
use my_agent::entry::tui::layout::{
    content_width, footer, header_lines, help_area, help_lines, indeterminate_indicator, input_inner, pill, plan,
    question_keys, regions, row_heights, rows_above, shown_rows, slash_menu_lines, status_line,
    text_width, too_small_text, welcome_lines, Area, MenuEntry, Plan, INPUT_HINT, MENU_TITLE,
};
use my_agent::entry::tui::view::{
    group_ms, message_lines, short_id, tool_elapsed_ms, transcript_lines_with_anchor,
    truncate_text, wrap_lines, Cell, Color, Look, RenderCache, Sight, Span, Theme, Tone,
};
use my_agent::entry::tui::{
    ActivityPhase, RecoverySnapshot, Surroundings, TokenUsage, TuiState, TuiThemeMode,
    UiMessageKind,
};
use my_agent::provider::Role;

fn look(tone: Tone) -> Look {
    Look { tone, bold: false, panel: false }
}

fn line(text: &str) -> Vec<Span> {
    vec![Span { text: text.to_owned(), look: look(Tone::Foreground) }]
}

fn row_text(row: &[Cell]) -> String {
    row.iter().map(|cell| cell.c).collect()
}

fn line_text(spans: &[Span]) -> String {
    spans.iter().map(|span| span.text.as_str()).collect()
}

fn columns(text: &str) -> usize {
    text.chars().map(|c| if (c as u32) < 0x300 { 1 } else { 2 }).sum()
}

fn state_of(session: &str) -> TuiState {
    TuiState::from_snapshot(
        RecoverySnapshot {
            session_id: session.to_owned(),
            messages: Vec::new(),
            pending_approvals: Vec::new(),
            active_requests: Vec::new(),
        },
        Surroundings {
            workspace: "/Users/pilot/Documents/myproject/agent-rust".to_owned(),
            web_url: "http://127.0.0.1:8787".to_owned(),
            theme_mode: TuiThemeMode::Terminal,
        },
        0,
    )
}

fn fixture() -> TuiState {
    let mut state = state_of("preview");
    state.push_text(Role::User, "帮我了解这个项目，并给出下一步建议。".to_owned(), 0);
    let turn_id = RequestId::String("preview-turn".to_owned());
    state.start_tool(
        turn_id.clone(),
        Some("preview-read".to_owned()),
        "read_file".to_owned(),
        1,
        0,
    );
    state.finish_tool(
        &turn_id,
        Some("preview-read"),
        "read_file",
        "原始工具输出默认收起",
        true,
        12,
        0,
    );
    state.push_text(
        Role::Assistant,
        "## 一个专注个人开发的编码助手\n\n项目使用 **Rust**，由工作区 daemon 管理会话和工具执行。\n\n### 现在可以做什么\n- 读取与修改代码，运行测试\n- 用 `plan` 拆解任务，用子 Agent 调研\n- 在 CLI、ACP 和 WebSocket 之间恢复会话\n\n### 从这里开始\n```bash\nmyagent chat \"读取 README 并总结\"\n```\n\n建议先为配置模块补充测试，再逐步改进交互体验。".to_owned(),
        0,
    );
    state
}

fn seconds_label(ms: Option<u64>) -> String {
    match ms {
        Some(ms) => format!(" · {:.1}s", ms as f32 / 1000.0),
        None => String::new(),
    }
}

fn transcript(state: &TuiState, cache: &mut RenderCache, width: u16) -> (Vec<Vec<Cell>>, Option<usize>) {
    let elapsed = state
        .messages
        .iter()
        .map(|message| match &message.kind {
            UiMessageKind::Tool(tool) => seconds_label(tool_elapsed_ms(tool)),
            UiMessageKind::Text(_) => String::new(),
        })
        .collect::<Vec<String>>();
    let durations = (0..state.messages.len())
        .map(|at| match group_ms(&state.messages, at) {
            0 => String::new(),
            ms => seconds_label(Some(ms)),
        })
        .collect::<Vec<String>>();
    let sight = Sight {
        width,
        show_tools: state.show_tools,
        theme_mode: state.theme_mode,
        now: 0,
    };
    transcript_lines_with_anchor(
        cache,
        &state.messages,
        sight,
        state.preserve_message_id,
        &elapsed,
        &durations,
    )
}

// What stands on a screen, one line for each row that shows something.
fn draw(state: &mut TuiState, cache: &mut RenderCache, width: u16, height: u16, menu: &Vec<MenuEntry>) -> String {
    let input = wrap_lines(&vec![line(&state.input.text())], width.saturating_sub(8));
    let area = Area { x: 0, y: 0, width, height };
    let Some(plan) = plan(area, input.len() as u16, 0, menu.len() as u16) else {
        return too_small_text().to_owned();
    };
    let regions = regions(plan);
    let mut out: Vec<String> = Vec::new();
    for header in header_lines(state) {
        out.push(line_text(&header));
    }
    let message_width = plan.content.width - 2;
    let (rows, anchor) = if state.messages.is_empty() {
        (wrap_lines(&welcome_lines(), message_width), None)
    } else {
        transcript(state, cache, message_width)
    };
    let viewport = usize::from(regions.transcript.height);
    let start = state.place_transcript(rows.len(), viewport, anchor);
    let (from, to) = shown_rows(rows.len(), start, viewport);
    for row in &rows[from..to] {
        out.push(row_text(row));
    }
    for entry in slash_menu_lines(menu, state.slash_selection, regions.slash.height) {
        out.push(line_text(&entry));
    }
    out.push(line_text(&status_line(state, plan.content.width)));
    out.push(footer(!menu.is_empty(), plan.content.width).to_owned());
    if state.show_help {
        for entry in help_lines(&state.session_id) {
            out.push(line_text(&entry));
        }
    }
    out.join("\n")
}

#[test]
fn wraps_chinese_by_display_width_and_scrolls_to_actual_last_line() {
    let lines = wrap_lines(&vec![line("中文内容abcdef")], 6);
    assert!(lines.iter().all(|row| columns(&row_text(row)) <= 6));
    assert_eq!(lines.len(), 3);
    let mut state = fixture();
    let UiMessageKind::Text(content) = &mut state.messages[2].kind else {
        panic!("第三条预览消息应为文本");
    };
    *content = "长文本".repeat(200) + "\n最后一行";
    state.messages[2].content_version += 1;
    let mut cache = RenderCache::new();
    let none = Vec::new();
    let rendered = draw(&mut state, &mut cache, 40, 20, &none);
    assert!(rendered.contains("最后一行"));
    state.scroll_by(8);
    let rendered = draw(&mut state, &mut cache, 40, 20, &none);
    assert!(!rendered.contains("最后一行"));
}

#[test]
fn renders_all_slash_commands_and_filters_them_by_prefix() {
    let commands = [
        ("/help", "查看命令"),
        ("/status", "查看状态"),
        ("/dogfood", "导出当前 session"),
    ];
    let fitting = |prefix: &str| {
        commands
            .iter()
            .filter(|(usage, _)| usage.starts_with(prefix))
            .map(|(usage, help)| MenuEntry { usage: (*usage).to_owned(), help: (*help).to_owned() })
            .collect::<Vec<MenuEntry>>()
    };
    let mut state = fixture();
    let mut cache = RenderCache::new();
    state.input.replace("/");
    let all = draw(&mut state, &mut cache, 100, 36, &fitting("/"));
    assert!(all.contains("/help"));
    assert!(all.contains("查看命令"));
    assert!(all.contains("/dogfood"));
    assert!(all.contains("导出当前 session"));

    state.input.replace("/do");
    let filtered = draw(&mut state, &mut cache, 100, 36, &fitting("/do"));
    assert!(filtered.contains("/dogfood"));
    assert!(!filtered.contains("/help"));
}

#[test]
fn caches_wrapped_messages_by_content_version_and_width() {
    let mut state = fixture();
    state.show_tools = true;
    let mut cache = RenderCache::new();
    let none = Vec::new();
    draw(&mut state, &mut cache, 60, 20, &none);
    let cached = cache.len();
    assert!(cached >= 3);
    draw(&mut state, &mut cache, 60, 20, &none);
    assert_eq!(cache.len(), cached);

    let UiMessageKind::Text(content) = &mut state.messages[2].kind else {
        panic!("预览消息应为文本");
    };
    content.push_str("\n新内容");
    state.messages[2].content_version += 1;
    draw(&mut state, &mut cache, 60, 20, &none);
    assert!(cache.len() > cached);
}

#[test]
fn the_cache_makes_room_when_it_is_full() {
    let mut state = state_of("cache");
    let mut cache = RenderCache::new();
    for i in 0..600 {
        state.push_text(Role::User, format!("{i}"), 0);
    }
    transcript(&state, &mut cache, 80);
    assert_eq!(cache.len(), 88);
}

#[test]
fn collapses_tool_runs_by_default_and_expands_details_on_toggle() {
    let mut state = fixture();
    let mut cache = RenderCache::new();
    let (collapsed, _) = transcript(&state, &mut cache, 100);
    let collapsed_text = collapsed.iter().map(|row| row_text(row)).collect::<String>();
    assert!(collapsed_text.contains("工具调用已折叠"));
    assert!(!collapsed_text.contains("原始工具输出默认收起"));

    state.show_tools = true;
    let (expanded, _) = transcript(&state, &mut cache, 100);
    let expanded_text = expanded.iter().map(|row| row_text(row)).collect::<String>();
    assert!(expanded_text.contains("原始工具输出默认收起"));
}

#[test]
fn a_folded_run_of_tools_says_what_it_holds() {
    let mut state = state_of("folded");
    let turn = RequestId::Number(1);
    for (name, round) in [("read_file", 1), ("exec", 1), ("web", 2), ("list", 2), ("grep", 3)] {
        state.start_tool(turn.clone(), None, name.to_owned(), round, 0);
        state.finish_tool(&turn, None, name, "", name != "web", 300, 0);
    }
    let mut cache = RenderCache::new();
    let (rows, _) = transcript(&state, &mut cache, 20);
    assert_eq!(rows.len(), 1);
    assert_eq!(
        row_text(&rows[0]),
        "  ✗ 工具调用已折叠 · 5 次 · 有失败 · 第 1-3 轮 · 1.5s · read_file、exec、web、list… · Ctrl+T 展开详情"
    );
    assert_eq!(rows[0][0].look.tone, Tone::Error);
    assert_eq!(group_ms(&state.messages, 0), 1500);
}

#[test]
fn expanding_tool_details_keeps_the_original_query_in_view() {
    let mut state = state_of("anchor-preview");
    state.push_text(Role::User, "上一轮 Query".to_owned(), 0);
    state.push_text(
        Role::Assistant,
        "上一轮回答第一行\n上一轮回答第二行\n上一轮回答第三行".to_owned(),
        0,
    );
    state.push_text(Role::User, "这是必须保留可见的原始 Query".to_owned(), 0);
    let turn_id = RequestId::String("anchor-turn".to_owned());
    state.start_tool(turn_id.clone(), Some("long-tool".to_owned()), "exec".to_owned(), 1, 0);
    let output = (0..80)
        .map(|index| format!("工具详情第 {index} 行"))
        .collect::<Vec<String>>()
        .join("\n");
    state.finish_tool(&turn_id, Some("long-tool"), "exec", &output, true, 100, 0);

    let mut cache = RenderCache::new();
    let none = Vec::new();
    let folded = draw(&mut state, &mut cache, 70, 20, &none);
    assert!(folded.contains("原始 Query"));

    state.toggle_tool_details();
    let expanded = draw(&mut state, &mut cache, 70, 20, &none);
    assert!(expanded.contains("原始 Query"));
    assert!(expanded.contains("工具详情第 0 行"));
    assert!(!state.follow_bottom);
    assert!(state.transcript_start > 0);
}

#[test]
fn short_transcript_starts_near_the_top_of_the_screen() {
    let mut state = state_of("top-preview");
    state.push_text(Role::User, "短 Query".to_owned(), 0);
    let mut cache = RenderCache::new();
    let drawn = draw(&mut state, &mut cache, 80, 30, &Vec::new());
    let rows = drawn.lines().collect::<Vec<&str>>();
    let header_row = rows.iter().position(|row| row.contains("my-agent")).expect("标题应可见");
    let query_row = rows.iter().position(|row| row.contains('›')).expect("Query 应可见");
    assert!(header_row <= 2);
    assert!(query_row <= 6);
}

#[test]
fn active_status_uses_an_animated_indeterminate_progress_bar() {
    let mut state = fixture();
    state.set_turn_phase(
        &RequestId::String("preview-active".to_owned()),
        ActivityPhase::WaitingModel,
    );
    state.status = "等待模型响应".to_owned();
    state.animation_tick = 0;
    let first = line_text(&status_line(&state, 80));
    state.advance_animation();
    let second = line_text(&status_line(&state, 80));
    assert!(first.contains('[') && first.contains(']'));
    assert_ne!(first, second);

    state.pending_approvals.push(PendingApprovalInfo {
        id: "status-approval".to_owned(),
        request_id: RequestId::String("preview-active".to_owned()),
        prompt: "允许测试？".to_owned(),
    });
    let approval = line_text(&status_line(&state, 80));
    assert!(approval.starts_with("◆ "));
    assert!(!approval.contains('['));
}

#[test]
fn the_state_line_says_what_it_knows() {
    let mut state = state_of("status");
    let spans = status_line(&state, 80);
    assert_eq!(line_text(&spans), "● 就绪   0 活动 · 0 排队");
    assert_eq!(spans[0].look.tone, Tone::Success);
    state.status = "请求失败".to_owned();
    let spans = status_line(&state, 80);
    assert_eq!(spans[0].text, "✗ ");
    assert_eq!(spans[0].look.tone, Tone::Error);
    state.scroll = 7;
    assert_eq!(status_line(&state, 80)[1].text, "↑ 历史 · 距底部 7 行");
    assert_eq!(status_line(&state, 10)[1].text, "…");
}

#[test]
fn terminal_theme_never_paints_a_fixed_background() {
    let theme = Theme::new(TuiThemeMode::Terminal);
    assert_eq!(theme.background, Color::Reset);
    assert_eq!(theme.panel, Color::Reset);
    assert!(theme.is_dim(look(Tone::Muted)));
    assert!(!theme.is_dim(look(Tone::Info)));
}

#[test]
fn light_theme_has_distinct_semantic_status_colors() {
    let theme = Theme::new(TuiThemeMode::Light);
    assert_ne!(theme.background, Color::Reset);
    assert_ne!(theme.info, theme.success);
    assert_ne!(theme.success, theme.error);
    assert_ne!(theme.diff_add, theme.diff_remove);
    assert_eq!(theme.background, Color::Rgb(246, 247, 250));
}

#[test]
fn dark_and_light_themes_paint_non_terminal_semantic_surfaces() {
    for mode in [TuiThemeMode::Dark, TuiThemeMode::Light] {
        let mut state = fixture();
        state.theme_mode = mode;
        let theme = Theme::new(mode);
        assert_ne!(theme.background, Color::Reset);
        let mut cache = RenderCache::new();
        let (rows, _) = transcript(&state, &mut cache, 100);
        let cells = rows.iter().flatten().collect::<Vec<&Cell>>();
        assert!(cells.iter().any(|cell| theme.color(cell.look.tone) == theme.info));
        assert!(cells.iter().any(|cell| theme.color(cell.look.tone) == theme.success));
        for tone in [Tone::Foreground, Tone::Muted, Tone::Border, Tone::Warm, Tone::Code] {
            assert_ne!(theme.color(tone), Color::Reset);
        }
        assert_eq!(theme.color(Tone::Error), theme.error);
        assert_eq!(theme.color(Tone::DiffAdd), theme.diff_add);
        assert_eq!(theme.color(Tone::DiffRemove), theme.diff_remove);
        assert!(!theme.is_dim(look(Tone::Muted)));
    }
}

#[test]
fn renders_help_overlay_with_shortcuts() {
    let mut state = fixture();
    state.show_help = true;
    let mut cache = RenderCache::new();
    let rendered = draw(&mut state, &mut cache, 80, 30, &Vec::new());
    let compact = rendered.replace(' ', "");
    assert!(compact.contains("快捷键"));
    assert!(compact.contains("Ctrl+C"));
    assert!(compact.contains("当前session"));
}

#[test]
fn marks_change_how_text_is_shown() {
    let base = look(Tone::Foreground);
    let spans = my_agent::entry::tui::view::inline("用 **粗** 和 `code` 结束", base);
    let shown = spans
        .iter()
        .map(|span| (span.text.as_str(), span.look.bold, span.look.tone))
        .collect::<Vec<(&str, bool, Tone)>>();
    assert_eq!(
        shown,
        vec![
            ("用 ", false, Tone::Foreground),
            ("粗", true, Tone::Foreground),
            (" 和 ", false, Tone::Foreground),
            ("code", true, Tone::Info),
            (" 结束", false, Tone::Foreground),
        ]
    );
    let open = my_agent::entry::tui::view::inline("没有 **结束", base);
    assert_eq!(open.len(), 1);
    assert_eq!(open[0].text, "没有 **结束");
    assert!(my_agent::entry::tui::view::inline("", base).is_empty());
}

#[test]
fn a_message_is_shown_line_by_line() {
    let mut state = state_of("lines");
    state.push_text(
        Role::Assistant,
        "# 标题\n- 项\n```rust\n+ add\n- del\nx\n```\n尾".to_owned(),
        1_000,
    );
    state.messages[0].token_usage = Some(TokenUsage { input: 10, output: 3 });
    let lines = message_lines(&state.messages[0], false, "", 4_500);
    let texts = lines.iter().map(|spans| line_text(spans)).collect::<Vec<String>>();
    assert_eq!(
        texts,
        vec![
            "✦  Agent · #1 · 3s · 10↑/3↓",
            "  │ 标题",
            "  │ • 项",
            "  ┌─ rust",
            "  │ + add",
            "  │ - del",
            "  │ x",
            "  └─",
            "  │ 尾",
            "  ·",
        ]
    );
    assert!(lines[0][0].look.bold);
    assert!(lines[1][1].look.bold);
    assert_eq!(lines[4][1].look.tone, Tone::DiffAdd);
    assert_eq!(lines[5][1].look.tone, Tone::DiffRemove);
    assert_eq!(lines[6][1].look.tone, Tone::Code);
}

#[test]
fn roles_have_their_own_labels() {
    let mut state = state_of("roles");
    state.push_text(Role::User, "**x**".to_owned(), 0);
    state.push_text(Role::System, "提示".to_owned(), 0);
    let user = message_lines(&state.messages[0], false, "", 0);
    assert_eq!(line_text(&user[0]), "›  你 · #1 · 0s");
    assert_eq!(line_text(&user[1]), "  **x**");
    let system = message_lines(&state.messages[1], false, "", 0);
    assert_eq!(line_text(&system[0]), "·  提示 · #2 · 0s");
    assert_eq!(line_text(&system[1]), "  提示");
}

#[test]
fn a_tool_call_shows_its_output_when_it_is_open() {
    let mut state = state_of("tool");
    let turn = RequestId::Number(1);
    state.start_tool(turn.clone(), None, "exec".to_owned(), 2, 100);
    let running = message_lines(&state.messages[0], true, "", 0);
    assert_eq!(line_text(&running[0]), "  ○ 工具  第 2 轮 · 运行命令");
    state.finish_tool(&turn, None, "exec", "一\n二", true, 1200, 400);
    let closed = message_lines(&state.messages[0], false, " · 1.2s", 0);
    assert_eq!(closed.len(), 1);
    assert_eq!(line_text(&closed[0]), "  ● 工具  第 2 轮 · 运行命令 · 1.2s");
    let open = message_lines(&state.messages[0], true, "", 0);
    assert_eq!(line_text(&open[2]), "    │ 二");
    let UiMessageKind::Tool(tool) = &mut state.messages[0].kind else {
        panic!("预期工具调用");
    };
    assert_eq!(tool_elapsed_ms(tool), Some(1200));
    tool.duration_ms = None;
    assert_eq!(tool_elapsed_ms(tool), Some(300));
    tool.finished_at = None;
    assert_eq!(tool_elapsed_ms(tool), None);
}

#[test]
fn texts_are_cut_to_a_width() {
    assert_eq!(truncate_text("abc", 3), "abc");
    assert_eq!(truncate_text("abcd", 3), "ab…");
    assert_eq!(truncate_text("中文字", 4), "中…");
    assert_eq!(truncate_text("ab", 0), "…");
    assert_eq!(short_id("session-2024-very-long.jsonl", 18), "session-2024-very…");
}

#[test]
fn wrapping_leaves_out_control_characters_and_keeps_the_rest() {
    let rows = wrap_lines(&vec![line("a\tb\u{7f}c\ndé"), line("")], 2);
    let texts = rows.iter().map(|row| row_text(row)).collect::<Vec<String>>();
    assert_eq!(texts, vec!["ab", "c", "dé", ""]);
    assert_eq!(wrap_lines(&vec![line("ab")], 0).len(), 2);
    let wide = wrap_lines(&vec![line("中a")], 1);
    assert_eq!(wide.len(), 2);
}

#[test]
fn the_bar_goes_from_end_to_end_and_back() {
    assert_eq!(indeterminate_indicator(0, false), "◐ ");
    assert_eq!(indeterminate_indicator(0, true), "◐ [━·······] ");
    assert_eq!(indeterminate_indicator(1, true), "◓ [━━······] ");
    assert_eq!(indeterminate_indicator(7, true), "◒ [······━━] ");
    assert_eq!(indeterminate_indicator(8, true), "◐ [·····━━·] ");
    assert_eq!(indeterminate_indicator(14, true), "◑ [━·······] ");
}

#[test]
fn parts_are_planned_by_the_room_there_is() {
    let small = Area { x: 0, y: 0, width: 23, height: 40 };
    assert_eq!(plan(small, 1, 0, 0), None);
    let low = Area { x: 0, y: 0, width: 40, height: 11 };
    assert_eq!(plan(low, 1, 0, 0), None);

    let wide = Area { x: 0, y: 0, width: 200, height: 50 };
    let p = plan(wide, 3, 0, 30).unwrap();
    assert_eq!(p.content, Area { x: 46, y: 1, width: 108, height: 48 });
    assert_eq!(p.input_height, 5);
    assert_eq!(p.approval_height, 0);
    assert_eq!(p.slash_height, 22);

    let asked = plan(wide, 100, 6, 0).unwrap();
    assert_eq!(asked.input_height, 10);
    assert_eq!(asked.approval_height, 10);
    assert_eq!(asked.slash_height, 0);

    let tight = plan(Area { x: 0, y: 0, width: 24, height: 12 }, 1, 9, 5).unwrap();
    assert_eq!(tight.approval_height, 4);
    assert_eq!(tight.slash_height, 0);
}

#[test]
fn parts_stand_below_each_other() {
    let p = plan(Area { x: 0, y: 0, width: 80, height: 30 }, 1, 0, 3).unwrap();
    let r = regions(p);
    assert_eq!(r.header, Area { x: 2, y: 1, width: 76, height: 2 });
    assert_eq!(r.transcript.y, 3);
    assert_eq!(r.slash.height, 5);
    assert_eq!(r.input.height, 3);
    assert_eq!(r.footer, Area { x: 2, y: 28, width: 76, height: 1 });
    assert_eq!(r.status.y, 27);
}

#[test]
fn the_transcript_takes_what_the_other_parts_leave() {
    for height in 12..60u16 {
        for (input, asked, commands) in
            [(1, 0, 0), (4, 0, 3), (9, 5, 0), (2, 7, 9), (3, 1, 0), (8, 30, 2), (20, 40, 30)]
        {
            let p = plan(Area { x: 3, y: 2, width: 60, height }, input, asked, commands).unwrap();
            let r = regions(p);
            let parts =
                [r.header, r.transcript, r.approval, r.slash, r.input, r.status, r.footer];
            let bottom = p.content.y + p.content.height;
            for part in parts {
                assert_eq!((part.x, part.width), (p.content.x, p.content.width));
                assert!(part.y >= p.content.y && part.y + part.height <= bottom);
            }
            for pair in parts.windows(2) {
                assert!(pair[0].y + pair[0].height <= pair[1].y);
            }
            let others = 4 + p.approval_height + p.slash_height + p.input_height;
            if others + 1 <= p.content.height {
                let heights = [
                    2,
                    p.content.height - others,
                    p.approval_height,
                    p.slash_height,
                    p.input_height,
                    1,
                    1,
                ];
                let mut y = p.content.y;
                for (part, height) in parts.iter().zip(heights) {
                    assert_eq!((part.y, part.height), (y, height));
                    y += height;
                }
                assert_eq!(y, bottom);
            }
        }
    }
}

#[test]
fn parts_keep_their_order_where_they_do_not_fit() {
    for height in 1..24u16 {
        for approval_height in [0, 4, 9, 30] {
            for slash_height in [0, 3, 8] {
                for input_height in [1, 3, 10] {
                    let content = Area { x: 1, y: 2, width: 30, height };
                    let r = regions(Plan { content, approval_height, slash_height, input_height });
                    let parts =
                        [r.header, r.transcript, r.approval, r.slash, r.input, r.status, r.footer];
                    assert!(parts[0].y >= 2 && parts[6].y + parts[6].height <= 2 + height);
                    for pair in parts.windows(2) {
                        assert!(pair[0].y + pair[0].height <= pair[1].y);
                    }
                }
            }
        }
    }
}

#[test]
fn a_transcript_is_placed_where_the_reader_left_it() {
    let mut state = state_of("scroll");
    assert_eq!(state.place_transcript(100, 20, None), 80);
    state.scroll_by(10);
    assert_eq!(state.place_transcript(100, 20, None), 70);
    assert_eq!(state.place_transcript(120, 20, None), 90);
    state.scroll_to_top();
    assert_eq!(state.place_transcript(100, 20, None), 0);
    assert_eq!(state.scroll, 80);
    assert_eq!(state.place_transcript(100, 20, Some(95)), 80);
    assert!(state.follow_bottom);
    assert_eq!(state.place_transcript(5, 20, None), 0);
}

#[test]
fn a_question_is_scrolled_no_further_than_its_end() {
    let mut state = state_of("question");
    state.approval_scroll = 50;
    assert_eq!(state.place_question(10, 10), 6);
    assert_eq!(state.approval_scroll, 4);
    assert_eq!(state.question_title(), " 确认 1/0 · PgUp/Dn 翻页 ");
}

#[test]
fn what_leads_back_to_the_end_stands_in_the_middle() {
    let region = Area { x: 2, y: 3, width: 40, height: 10 };
    let (label, area) = pill(0, region);
    assert_eq!(label, "↥ 回到底部");
    assert_eq!(area, Area { x: 15, y: 12, width: 14, height: 1 });
    let (label, _) = pill(3, region);
    assert_eq!(label, "↥ 3 条新消息 · 回到底部");
}

#[test]
fn the_line_that_is_edited_has_an_inside() {
    let inner = input_inner(Area { x: 2, y: 20, width: 40, height: 3 });
    assert_eq!(inner, Area { x: 4, y: 21, width: 36, height: 1 });
    let mut state = state_of("cursor");
    state.input.insert_text("ab");
    assert_eq!(state.cursor_place(inner, 0), Some((6, 21)));
    assert_eq!(state.input_title(), " 发送消息 ");
    assert_eq!(state.input_border(), Tone::Info);
    state.pending_approvals.push(PendingApprovalInfo {
        id: "q".to_owned(),
        request_id: RequestId::Number(1),
        prompt: "?".to_owned(),
    });
    assert_eq!(state.cursor_place(inner, 0), None);
    assert_eq!(state.input_border(), Tone::Border);
}

#[test]
fn the_footer_fits_the_width() {
    assert!(footer(true, 10).starts_with("↑/↓ 选择命令"));
    assert!(footer(false, 90).contains("Alt↵ 换行"));
    assert!(footer(false, 55).contains("Ctrl+C 取消"));
    assert_eq!(footer(false, 54), "Enter 发送 · Ctrl+/ 帮助 · Esc 退出");
}

#[test]
fn the_chosen_command_is_in_sight() {
    let entries = (0..10)
        .map(|i| MenuEntry { usage: format!("/c{i}"), help: format!("h{i}") })
        .collect::<Vec<MenuEntry>>();
    let lines = slash_menu_lines(&entries, 7, 5);
    let texts = lines.iter().map(|spans| line_text(spans)).collect::<Vec<String>>();
    assert_eq!(texts, vec!["  /c5  h5", "  /c6  h6", "› /c7  h7"]);
    assert!(slash_menu_lines(&entries, 0, 2).is_empty());
    assert!(slash_menu_lines(&Vec::new(), 0, 9).is_empty());
}

#[test]
fn the_help_stands_in_the_middle() {
    let content = Area { x: 2, y: 1, width: 100, height: 40 };
    let area = help_area(content, 20);
    assert_eq!(area, Area { x: 16, y: 8, width: 72, height: 26 });
    let lines = help_lines("s-1");
    assert_eq!(line_text(&lines[0]), "快捷键");
    assert_eq!(line_text(lines.last().unwrap()), "当前 session: s-1");
    assert!(lines.iter().any(|spans| line_text(spans) == "Ctrl+C              取消当前请求"));
}

#[test]
fn an_empty_transcript_shows_how_to_begin() {
    let mut state = state_of("welcome");
    let mut cache = RenderCache::new();
    let drawn = draw(&mut state, &mut cache, 80, 30, &Vec::new());
    assert!(drawn.contains("从一个想法开始。"));
    assert!(drawn.contains("✦ my-agent  ·  agent-rust  ·  session welcome"));
    assert!(drawn.contains("Web http://127.0.0.1:8787 · /web 打开"));
    state.workspace = "/".to_owned();
    assert!(line_text(&header_lines(&state)[0]).contains("  ·  workspace  ·  "));
}

#[test]
fn a_question_names_its_keys() {
    assert_eq!(line_text(&question_keys()), "Y 允许一次    N / Enter 拒绝");
    assert_eq!(INPUT_HINT, "描述你想做什么…");
    assert!(MENU_TITLE.contains("Tab 补全"));
}

#[test]
fn every_part_asks_for_its_rows() {
    let content = Area { x: 0, y: 0, width: 30, height: 5 };
    let cramped = Plan { content, approval_height: 9, slash_height: 3, input_height: 4 };
    assert_eq!(row_heights(cramped), [2, 1, 9, 3, 4, 1, 1]);
    assert_eq!((content_width(200), content_width(50), content_width(2)), (108, 46, 0));
    assert_eq!((text_width(46), text_width(3)), (42, 0));
    assert_eq!((rows_above(10, 4), rows_above(3, 4)), (6, 0));
}
