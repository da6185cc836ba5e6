use minigrep::{search_case_insensitive, search_case_sensitive};

/// Every text of at most `longest` characters over `alphabet`.
fn texts(alphabet: &[char], longest: usize) -> Vec<Vec<char>> {
    let mut all: Vec<Vec<char>> = vec![Vec::new()];
    let mut last: Vec<Vec<char>> = vec![Vec::new()];
    for _ in 0..longest {
        let mut next: Vec<Vec<char>> = Vec::new();
        for text in &last {
            for c in alphabet {
                let mut longer = text.clone();
                longer.push(*c);
                next.push(longer);
            }
        }
        all.extend(next.iter().cloned());
        last = next;
    }
    all
}

fn line_without_carriage_return(line: &[char]) -> Vec<char> {
    if !line.is_empty() && line[line.len() - 1] == '\r' {
        line[..line.len() - 1].to_vec()
    } else {
        line.to_vec()
    }
}

/// The lines of a text, computed as they are defined: up to the first line
/// feed, and from behind it again.
fn lines_by_definition(text: &[char]) -> Vec<Vec<char>> {
    let mut lines: Vec<Vec<char>> = Vec::new();
    let mut rest = text;
    while !rest.is_empty() {
        let mut end = 0;
        while end < rest.len() && rest[end] != '\n' {
            end += 1;
        }
        if end >= rest.len() {
            lines.push(rest.to_vec());
            rest = &rest[rest.len()..];
        } else {
            lines.push(line_without_carriage_return(&rest[..end]));
            rest = &rest[end + 1..];
        }
    }
    lines
}

/// Whether `needle` stands somewhere in `hay`, tried at each position.
fn occurs_by_definition(needle: &[char], hay: &[char]) -> bool {
    if needle.len() > hay.len() {
        return false;
    }
    for at in 0..=hay.len() - needle.len() {
        if hay[at..at + needle.len()] == *needle {
            return true;
        }
    }
    false
}

fn string(text: &[char]) -> String {
    text.iter().collect()
}

fn strings(lines: &[Vec<char>]) -> Vec<String> {
    lines.iter().map(|line| string(line)).collect()
}

#[test]
fn lines_of_short_texts_are_as_defined() {
    for text in texts(&['a', '\r', '\n'], 8) {
        let contents = string(&text);
        let expected = strings(&lines_by_definition(&text));
        assert_eq!(expected, search_case_sensitive("", &contents), "text {:?}", contents);
        assert_eq!(expected, search_case_insensitive("", &contents), "text {:?}", contents);
    }
}

#[test]
fn lines_of_short_texts_beyond_ascii_are_as_defined() {
    for text in texts(&['é', '\r', '\n', '\u{2028}', '日'], 5) {
        let contents = string(&text);
        let expected = strings(&lines_by_definition(&text));
        assert_eq!(expected, search_case_sensitive("", &contents), "text {:?}", contents);
    }
}

#[test]
fn no_line_holds_a_line_feed() {
    for text in texts(&['a', '\r', '\n'], 8) {
        let contents = string(&text);
        for line in search_case_sensitive("", &contents) {
            assert!(!line.contains('\n'), "text {:?}", contents);
        }
    }
}

#[test]
fn final_terminator_adds_no_line_to_short_texts() {
    for text in texts(&['a', 'b', '\r', '\n'], 6) {
        if text.is_empty() || text[text.len() - 1] == '\n' || text[text.len() - 1] == '\r' {
            continue;
        }
        let contents = string(&text);
        let with_line_feed = format!("{}\n", contents);
        let with_both = format!("{}\r\n", contents);
        let lines = search_case_sensitive("", &contents);
        assert_eq!(lines, search_case_sensitive("", &with_line_feed), "text {:?}", contents);
        assert_eq!(lines, search_case_sensitive("", &with_both), "text {:?}", contents);
    }
}

#[test]
fn containment_in_short_lines_is_as_defined() {
    let alphabet = ['a', 'b', 'é', '日', '\u{1F600}'];
    let lines = texts(&alphabet, 4);
    let queries = texts(&alphabet, 3);
    for line in &lines {
        if line.is_empty() {
            continue;
        }
        let contents = string(line);
        for query in &queries {
            let expected: Vec<&str> =
                if occurs_by_definition(query, line) { vec![&contents] } else { Vec::new() };
            assert_eq!(
                expected,
                search_case_sensitive(&string(query), &contents),
                "query {:?} in {:?}",
                query,
                contents
            );
        }
    }
}

#[test]
fn search_in_short_texts_is_as_defined() {
    let alphabet = ['a', 'b', '\r', '\n'];
    let queries = texts(&['a', 'b', '\r'], 2);
    for text in texts(&alphabet, 6) {
        let contents = string(&text);
        let lines = lines_by_definition(&text);
        for query in &queries {
            let expected: Vec<String> = lines
                .iter()
                .filter(|line| occurs_by_definition(query, line))
                .map(|line| string(line))
                .collect();
            assert_eq!(
                expected,
                search_case_sensitive(&string(query), &contents),
                "query {:?} in {:?}",
                query,
                contents
            );
        }
    }
}

#[test]
fn case_insensitive_search_in_short_texts_is_exact_search_in_lowercase() {
    let alphabet = ['a', 'A', 'ß', 'Σ', ' ', '\n'];
    let queries = texts(&['a', 'A', 'Σ', 'σ', 'ς'], 2);
    for text in texts(&alphabet, 5) {
        let contents = string(&text);
        for query in &queries {
            let query = string(query);
            let folded_query = query.to_lowercase();
            let expected: Vec<String> = lines_by_definition(&text)
                .iter()
                .filter(|line| {
                    let folded: Vec<char> = string(line).to_lowercase().chars().collect();
                    let needle: Vec<char> = folded_query.chars().collect();
                    occurs_by_definition(&needle, &folded)
                })
                .map(|line| string(line))
                .collect();
            assert_eq!(
                expected,
                search_case_insensitive(&query, &contents),
                "query {:?} in {:?}",
                query,
                contents
            );
        }
    }
}
