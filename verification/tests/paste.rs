use horseshoe::paste::{bracket_paste, bracket_paste_len, contains_bracket_end, prepare_paste};


    #[test]
    fn bracket_paste_bracketed() {
        let parts = bracket_paste("hello", true);
        assert_eq!(parts[0], b"\x1b[200~");
        assert_eq!(parts[1], b"hello");
        assert_eq!(parts[2], b"\x1b[201~");
    }


    #[test]
    fn bracket_paste_unbracketed() {
        let parts = bracket_paste("hello", false);
        assert_eq!(parts[0], b"");
        assert_eq!(parts[1], b"hello");
        assert_eq!(parts[2], b"");
    }


    #[test]
    fn bracket_paste_empty_text() {
        let parts = bracket_paste("", true);
        assert_eq!(parts[0], b"\x1b[200~");
        assert_eq!(parts[1], b"");
        assert_eq!(parts[2], b"\x1b[201~");
    }


    #[test]
    fn bracket_paste_special_chars() {
        let text = "\x1b[A\n\r\t";
        let parts = bracket_paste(text, true);
        assert_eq!(parts[1], text.as_bytes());
    }


    #[test]
    fn bracket_paste_len_bracketed() {
        assert_eq!(bracket_paste_len("hello", true), 6 + 5 + 6); // \x1b[200~ + hello + \x1b[201~
    }


    #[test]
    fn bracket_paste_len_unbracketed() {
        assert_eq!(bracket_paste_len("hello", false), 5);
    }


    #[test]
    fn bracket_paste_large_text() {
        let text = "a".repeat(10_000);
        let parts = bracket_paste(&text, true);
        assert_eq!(parts[1].len(), 10_000);
    }


    #[test]
    fn bracket_end_absent() {
        assert!(!contains_bracket_end("hello world"));
    }


    #[test]
    fn bracket_end_present() {
        assert!(contains_bracket_end("foo\x1b[201~bar"));
    }


    #[test]
    fn bracket_end_empty() {
        assert!(!contains_bracket_end(""));
    }


    #[test]
    fn bracket_end_partial_sequence() {
        assert!(!contains_bracket_end("\x1b[201"));
    }


    #[test]
    fn bracket_end_with_newlines() {
        // Newlines are fine — only bracket-end is dangerous
        assert!(!contains_bracket_end("line1\nline2\nline3"));
    }


    #[test]
    fn prepare_paste_bracketed_plain() {
        let data = prepare_paste("hello", true).expect("should succeed");
        assert_eq!(data, b"\x1b[200~hello\x1b[201~");
    }


    #[test]
    fn prepare_paste_bracketed_with_newlines() {
        let data = prepare_paste("line1\nline2", true).expect("should succeed");
        // Newlines preserved in bracketed mode
        assert_eq!(data, b"\x1b[200~line1\nline2\x1b[201~");
    }


    #[test]
    fn prepare_paste_unbracketed_plain() {
        let data = prepare_paste("hello", false).expect("should succeed");
        assert_eq!(data, b"hello");
    }


    #[test]
    fn prepare_paste_unbracketed_newline_to_cr() {
        let data = prepare_paste("line1\nline2", false).expect("should succeed");
        // \n converted to \r in non-bracketed mode
        assert_eq!(data, b"line1\rline2");
    }


    #[test]
    fn prepare_paste_unbracketed_crlf() {
        let data = prepare_paste("a\r\nb", false).expect("should succeed");
        // \r stays, \n → \r → results in \r\r
        assert_eq!(data, b"a\r\rb");
    }


    #[test]
    fn prepare_paste_rejects_bracket_end_bracketed() {
        assert!(prepare_paste("foo\x1b[201~bar", true).is_none());
    }


    #[test]
    fn prepare_paste_rejects_bracket_end_unbracketed() {
        assert!(prepare_paste("foo\x1b[201~bar", false).is_none());
    }


    #[test]
    fn prepare_paste_empty_bracketed() {
        let data = prepare_paste("", true).expect("should succeed");
        assert_eq!(data, b"\x1b[200~\x1b[201~");
    }


    #[test]
    fn prepare_paste_empty_unbracketed() {
        let data = prepare_paste("", false).expect("should succeed");
        assert!(data.is_empty());
    }


    #[test]
    fn prepare_paste_unicode() {
        let data = prepare_paste("日本語\n🎉", true).expect("should succeed");
        assert!(data.starts_with(b"\x1b[200~"));
        assert!(data.ends_with(b"\x1b[201~"));
    }


    #[test]
    fn prepare_paste_with_null_bytes() {
        let text = "hello\x00world";
        let data = prepare_paste(text, true);
        // Should succeed — null bytes are not the bracket-end sequence
        assert!(data.is_some(), "null bytes should not block paste");
        let bytes = data.expect("paste data");
        assert!(
            bytes.windows(1).any(|w| w == [0]),
            "null byte should be preserved"
        );
    }


    #[test]
    fn prepare_paste_large_text() {
        let text = "a".repeat(1_000_000);
        let data = prepare_paste(&text, true).expect("1MB paste should succeed");
        // 6 (open) + 1_000_000 + 6 (close)
        assert_eq!(data.len(), 1_000_012);
    }


    #[test]
    fn test_bracket_paste_contains_delimiter() {
        // Text containing the bracket START sequence should still work
        let text = "before\x1b[200~after";
        let data = prepare_paste(text, true);
        assert!(data.is_some(), "bracket start in payload should be OK");
    }


    #[test]
    fn test_prepare_paste_empty_unbracketed_is_empty() {
        let data = prepare_paste("", false).expect("should succeed");
        assert!(
            data.is_empty(),
            "empty unbracketed paste should be empty vec"
        );
    }


    #[test]
    fn test_paste_bel_and_del() {
        // BEL (0x07) and DEL (0x7F) should not trigger rejection
        let bel_input = "hello\x07world";
        let delete_input = "hello\x7Fworld";
        assert!(
            !contains_bracket_end(bel_input),
            "BEL should not match bracket end"
        );
        assert!(
            !contains_bracket_end(delete_input),
            "DEL should not match bracket end"
        );
        // prepare_paste should work for these
        assert!(prepare_paste(bel_input, true).is_some());
        assert!(prepare_paste(delete_input, true).is_some());
    }


    #[test]
    fn test_contains_bracket_end_partial() {
        // "\x1b[20" without trailing "1~" is NOT the bracket end sequence
        assert!(
            !contains_bracket_end("\x1b[20"),
            "partial bracket-end sequence should not match"
        );
        // Also test with just the tilde missing
        assert!(
            !contains_bracket_end("\x1b[201"),
            "bracket-end missing final tilde should not match"
        );
    }


    #[test]
    fn test_prepare_paste_empty_string() {
        // Bracketed: returns the delimiters wrapping empty content
        let bracketed = prepare_paste("", true).expect("should succeed");
        assert_eq!(bracketed, b"\x1b[200~\x1b[201~");
        // Unbracketed: returns empty vec
        let unbracketed = prepare_paste("", false).expect("should succeed");
        assert!(unbracketed.is_empty());
    }


    #[test]
    fn test_bracket_paste_len_consistency() {
        let texts = ["", "hello", "a\nb\nc", "\x1b[200~nested"];
        for text in texts {
            for bracketed in [true, false] {
                let parts = bracket_paste(text, bracketed);
                let sum: usize = parts.iter().map(|p| p.len()).sum();
                assert_eq!(
                    bracket_paste_len(text, bracketed),
                    sum,
                    "bracket_paste_len should equal sum of parts for {text:?} bracketed={bracketed}",
                );
            }
        }
    }


    #[test]
    fn test_prepare_paste_large_text() {
        let text = "x".repeat(10_000);
        let data = prepare_paste(&text, true).expect("10KB paste should succeed");
        // 6 (open) + 10_000 + 6 (close)
        assert_eq!(data.len(), 10_012);
        let data_unbr = prepare_paste(&text, false).expect("10KB unbracketed should succeed");
        assert_eq!(data_unbr.len(), 10_000);
    }

