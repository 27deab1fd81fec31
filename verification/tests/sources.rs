use remux_server::conversions::{
    stream_into_media_source_info, stremio_source_with_id, subtitle_codec_of,
    subtitle_to_media_stream, title_request, to_option_bool, DisplayPreferencesDto, Episode,
    JellyfinDisplayPrefsData, ScrollDirection, SortOrder, SourceLookup, Stream, StreamLookup,
    SubtitleInfo, TitleKind,
};
use remux_server::infer::{
    fallback_media_streams, infer_audio_channels, infer_audio_codec, infer_container_from_url,
    infer_video_codec, ContainerName,
};
use remux_server::model::{
    Media, MediaKind, MediaProtocol, MediaSourceInfo, MediaStream, MediaStreamType, MediaType,
    ProbeData, StreamDescriptor, StreamInfo, SubtitleDeliveryMethod, UtcTime, VideoContainer,
    VideoRange,
};
use remux_server::paths::{path_of_source, path_with_stem};
use std::collections::HashMap;

const ID: u128 = 0x67e5504410b1426f9247bb680e5fe0c8;
const ID_TEXT: &str = "67e55044-10b1-426f-9247-bb680e5fe0c8";

fn known() -> Vec<ContainerName> {
    let mut names = Vec::new();
    for (extension, name) in [("mkv", "mkv"), ("mp4", "mp4"), ("m4v", "mp4"), ("m3u8", "wrong")] {
        names.push(ContainerName { extension: extension.to_string(), name: name.to_string() });
    }
    names
}

fn info(http_url: Option<&str>, filename: Option<&str>, size: Option<i64>) -> StreamInfo {
    StreamInfo {
        descriptor: StreamDescriptor::Other,
        http_url: http_url.map(|s| s.to_string()),
        is_p2p: false,
        filename: filename.map(|s| s.to_string()),
        size,
        usenet_guid: None,
        usenet_indexer: None,
    }
}

fn no_lookup() -> SourceLookup {
    SourceLookup { runtime_ticks: None, provider_info: None, streams: vec![] }
}

#[test]
fn containers_are_told_by_addresses() {
    let mkv = Some(VideoContainer::Known("mkv".to_string()));
    assert_eq!(infer_container_from_url("https://h/x/Movie.MKV?t=a.mp4#b.mp4", &known()), mkv);
    assert_eq!(infer_container_from_url("no address/a.b/c.mkv", &known()), mkv);
    assert_eq!(
        infer_container_from_url("https://h/a.m4v", &known()),
        Some(VideoContainer::Known("mp4".to_string()))
    );
    assert_eq!(
        infer_container_from_url("https://h/live.M3U8", &known()),
        Some(VideoContainer::Other("hls".to_string()))
    );
    assert_eq!(infer_container_from_url("https://h", &known()), None);
    assert_eq!(infer_container_from_url("https://h.mkv", &known()), None);
    assert_eq!(infer_container_from_url("https://h/x.mkv/y", &known()), None);
    assert_eq!(infer_container_from_url("https://h/mkv", &known()), mkv);
    assert_eq!(infer_container_from_url("", &known()), None);
}

#[test]
fn video_codecs_are_told_by_titles() {
    for (text, codec) in [
        ("a x265 h264", Some("hevc")),
        ("hevc", Some("hevc")),
        ("h265", Some("hevc")),
        ("av1 vp9", Some("av1")),
        ("vp9", Some("vp9")),
        ("x264", Some("h264")),
        ("avc", Some("h264")),
        ("HEVC", None),
        ("", None),
    ] {
        assert_eq!(infer_video_codec(text).as_deref(), codec);
    }
}

#[test]
fn audio_codecs_are_told_by_titles() {
    for (text, codec) in [
        ("truehd dts", Some("truehd")),
        ("dca", Some("dts")),
        ("eac3", Some("eac3")),
        ("ddp5.1", Some("eac3")),
        ("ac3", Some("ac3")),
        ("aac", Some("aac")),
        ("flac", None),
    ] {
        assert_eq!(infer_audio_codec(text).as_deref(), codec);
    }
}

#[test]
fn channels_are_told_by_titles() {
    assert_eq!(infer_audio_channels("7.1 5.1"), Some(8));
    assert_eq!(infer_audio_channels("5.1"), Some(6));
    assert_eq!(infer_audio_channels("2.0"), Some(2));
    assert_eq!(infer_audio_channels("stereo"), Some(2));
    assert_eq!(infer_audio_channels("mono"), None);
}

#[test]
fn remote_streams_have_fallback_tracks() {
    let mut media = Media::default();
    media.kind = MediaKind::Stream;
    media.is_remote_url = true;
    media.title = "Film 1080p HEVC DDP5.1".to_string();
    let tracks = fallback_media_streams(&media);
    assert_eq!(tracks.len(), 2);
    assert_eq!(tracks[0].type_, Some(MediaStreamType::Video));
    assert_eq!(tracks[0].codec.as_deref(), Some("hevc"));
    assert_eq!(tracks[0].display_title.as_deref(), Some("HEVC - Fallback"));
    assert_eq!(tracks[1].codec.as_deref(), Some("eac3"));
    assert_eq!(tracks[1].channels, Some(6));
    assert_eq!(tracks[1].display_title.as_deref(), Some("EAC3 - 5.1 - Fallback"));

    media.title = "Film stereo".to_string();
    let tracks = fallback_media_streams(&media);
    assert_eq!(tracks[0].display_title.as_deref(), Some("Video - Fallback"));
    assert_eq!(tracks[1].display_title.as_deref(), Some("Audio - Stereo - Fallback"));

    media.is_remote_url = false;
    assert!(fallback_media_streams(&media).is_empty());
    media.is_remote_url = true;
    media.kind = MediaKind::Movie;
    assert!(fallback_media_streams(&media).is_empty());
}

#[test]
fn paths_show_the_stem_of_the_file_name() {
    let plain = format!("/remux/{}", ID_TEXT);
    assert_eq!(path_of_source(ID, &None), plain);
    for (name, stem) in [
        ("a.mkv", Some("a")),
        ("a.b.mkv", Some("a.b")),
        (".hidden", Some(".hidden")),
        ("dir/a.mkv", Some("a")),
        ("dir/", Some("dir")),
        ("/", None),
        ("..", None),
        ("a/..", None),
        (".", None),
        ("a/.", Some("a")),
        ("", None),
        ("a", Some("a")),
        ("a.", Some("a")),
        ("..a", Some(".")),
        ("a//b.c/", Some("b")),
        ("x/.b.c", Some(".b")),
        ("ü🎯.mp4", Some("ü🎯")),
        ("...", Some("..")),
        ("Film: a b.c d", Some("Film: a b")),
    ] {
        let want = match stem {
            Some(s) => format!("{}/{}", plain, s),
            None => plain.clone(),
        };
        assert_eq!(path_of_source(ID, &Some(name.to_string())), want);
    }
}

#[test]
fn paths_show_the_stem_that_the_system_has() {
    for (name, unix, windows) in [
        ("dir\\a.mkv", Some("dir\\a"), Some("a")),
        ("C:\\dir\\a.b.mkv", Some("C:\\dir\\a.b"), Some("a.b")),
        ("C:a.mkv", Some("C:a"), Some("a")),
        ("C:", Some("C:"), None),
        ("1:a.mkv", Some("1:a"), Some("1:a")),
        ("a\\..", Some("a\\."), None),
        ("//server/share", Some("share"), None),
        ("\\\\server\\share\\a.mkv", Some("\\\\server\\share\\a"), Some("a")),
        ("\\\\?\\C:\\a/b.c", Some("b"), Some("a/b")),
    ] {
        let stem = if std::path::is_separator('\\') { windows } else { unix };
        assert_eq!(
            path_of_source(ID, &Some(name.to_string())),
            path_with_stem(ID, &stem.map(|s| s.to_string()))
        );
    }
}

#[test]
fn paths_are_made_of_stems() {
    assert_eq!(path_with_stem(ID, &None), format!("/remux/{}", ID_TEXT));
    assert_eq!(path_with_stem(ID, &Some("a.b".to_string())), format!("/remux/{}/a.b", ID_TEXT));
}

#[test]
fn sources_are_told_under_given_paths() {
    let mut media = Media::default();
    media.stream_info = Some(info(None, Some("a.mkv"), None));
    let source =
        MediaSourceInfo::from_media_at(media, no_lookup(), &known(), "/remux/x".to_string());
    assert_eq!(source.path.as_deref(), Some("/remux/x"));
}

#[test]
fn sources_are_made_of_items() {
    let mut media = Media::default();
    media.id = ID;
    media.title = "Version".to_string();
    media.stream_info = Some(info(Some("https://h/a.mkv"), Some("Film.2020.mkv"), Some(7)));
    let source = MediaSourceInfo::from_media(
        media,
        SourceLookup { runtime_ticks: Some(600_000_000), provider_info: None, streams: vec![] },
        &known(),
    );
    assert_eq!(source.id, ID);
    assert_eq!(source.e_tag, ID);
    assert_eq!(source.path, Some(format!("/remux/{}/Film.2020", ID_TEXT)));
    assert_eq!(source.protocol, MediaProtocol::File);
    assert!(!source.is_remote);
    assert_eq!(source.name.as_deref(), Some("Version"));
    assert_eq!(source.container, Some(VideoContainer::Known("mkv".to_string())));
    assert!(source.has_segments);
    assert_eq!(source.formats, Some(vec![]));
    assert_eq!(source.required_http_headers, Some(HashMap::new()));
    assert_eq!(source.run_time_ticks, Some(600_000_000));
    assert_eq!(source.bitrate, None);
    assert_eq!(source.size, Some(7));
    assert!(source.media_streams.is_empty());
}

#[test]
fn probing_goes_before_what_is_told() {
    let mut media = Media::default();
    media.id = 1;
    media.group_id = Some(2);
    media.stream_info = Some(info(Some("https://h/a.mkv"), None, Some(7)));
    let video = MediaStream { type_: Some(MediaStreamType::Video), ..MediaStream::default() };
    let subtitle = MediaStream {
        type_: Some(MediaStreamType::Subtitle),
        display_title: Some("Mine".to_string()),
        ..MediaStream::default()
    };
    media.probe_data = Some(ProbeData {
        container: Some(VideoContainer::Known("mp4".to_string())),
        run_time_ticks: Some(5),
        bitrate: Some(6),
        size: Some(8),
        has_video: true,
        media_streams: vec![video, subtitle],
    });
    let source = MediaSourceInfo::from_media(
        media,
        SourceLookup {
            runtime_ticks: Some(9),
            provider_info: Some(serde_json::Value::Bool(true)),
            streams: vec![
                StreamLookup { is_text_subtitle: true, display_title: Some("4K".to_string()) },
                StreamLookup { is_text_subtitle: true, display_title: Some("no".to_string()) },
            ],
        },
        &known(),
    );
    assert_eq!(source.id, 2);
    assert_eq!(source.path, Some("/remux/00000000-0000-0000-0000-000000000001".to_string()));
    assert_eq!(source.container, Some(VideoContainer::Known("mp4".to_string())));
    assert_eq!(source.run_time_ticks, Some(5));
    assert_eq!(source.bitrate, Some(6));
    assert_eq!(source.size, Some(8));
    assert_eq!(source.media_streams[0].display_title.as_deref(), Some("4K"));
    assert!(!source.media_streams[0].is_text_subtitle_stream);
    assert_eq!(source.media_streams[1].display_title.as_deref(), Some("Mine"));
    assert!(source.media_streams[1].is_text_subtitle_stream);
    assert_eq!(source.remux.unwrap().provider_info, Some(serde_json::Value::Bool(true)));
}

#[test]
fn size_falls_back_where_probing_found_none() {
    let mut media = Media::default();
    media.stream_info = Some(info(None, None, Some(7)));
    media.probe_data = Some(ProbeData {
        container: None,
        run_time_ticks: None,
        bitrate: None,
        size: None,
        has_video: false,
        media_streams: vec![],
    });
    let source = MediaSourceInfo::from_media(media, no_lookup(), &known());
    assert_eq!(source.size, Some(7));
    assert!(!source.has_segments);
    assert_eq!(source.container, None);
}

#[test]
fn music_that_was_not_probed_has_a_track() {
    let mut media = Media::default();
    media.kind = MediaKind::Track;
    let source = MediaSourceInfo::from_media(media, no_lookup(), &known());
    assert_eq!(source.media_streams.len(), 1);
    assert_eq!(source.media_streams[0].codec.as_deref(), Some("aac"));
    assert_eq!(source.media_streams[0].channels, Some(2));
    assert_eq!(source.media_streams[0].display_title.as_deref(), Some("Audio"));
    assert_eq!(source.media_streams[0].is_default, Some(true));
}

#[test]
fn titles_are_asked_for_where_there_are_none() {
    let mut track = MediaStream::default();
    assert!(title_request(&track).is_none());
    track.type_ = Some(MediaStreamType::Audio);
    track.language = Some("eng".to_string());
    track.is_default = Some(true);
    track.video_range = Some(VideoRange::Hdr);
    let (kind, meta) = title_request(&track).unwrap();
    assert_eq!(kind, TitleKind::Audio);
    assert_eq!(meta.language.as_deref(), Some("eng"));
    assert!(meta.is_default);
    assert_eq!(meta.video_range, None);
    track.display_title = Some("x".to_string());
    assert!(title_request(&track).is_none());
}

#[test]
fn formats_of_subtitles_are_told_by_paths() {
    assert_eq!(subtitle_codec_of("https://h/a.VTT"), "webvtt");
    assert_eq!(subtitle_codec_of("a.srt"), "subrip");
    assert_eq!(subtitle_codec_of("a.ass"), "ass");
    assert_eq!(subtitle_codec_of("a.Ssa"), "ass");
    assert_eq!(subtitle_codec_of("a.srt?x"), "webvtt");
    assert_eq!(subtitle_codec_of(""), "webvtt");
}

#[test]
fn subtitles_become_tracks() {
    let sub = SubtitleInfo {
        url: Some(StreamDescriptor::Http { url: "https://h/a.srt".to_string() }),
        lang: Some("eng".to_string()),
        is_forced: true,
        is_hi: false,
    };
    let track = subtitle_to_media_stream(&sub);
    assert_eq!(track.index, 0);
    assert_eq!(track.type_, Some(MediaStreamType::Subtitle));
    assert_eq!(track.codec.as_deref(), Some("subrip"));
    assert_eq!(track.language.as_deref(), Some("eng"));
    assert_eq!(track.display_title.as_deref(), Some("eng - SUBRIP - External"));
    assert_eq!(track.is_default, Some(false));
    assert!(track.is_forced);
    assert!(!track.is_hearing_impaired);
    assert!(track.is_external && track.is_text_subtitle_stream && track.supports_external_stream);
    assert_eq!(track.delivery_method, Some(SubtitleDeliveryMethod::External));
    assert_eq!(track.localized_hearing_impaired.as_deref(), Some("Hearing Impaired"));
}

#[test]
fn subtitles_without_language_are_undetermined() {
    for (url, title) in [
        (None, "und - WEBVTT - External"),
        (Some(StreamDescriptor::Local(Some("/a.ass".to_string()))), "und - ASS - External"),
        (Some(StreamDescriptor::Local(None)), "und - WEBVTT - External"),
        (Some(StreamDescriptor::Opendal { path: "a.srt".to_string() }), "und - SUBRIP - External"),
        (
            Some(StreamDescriptor::Torrent {
                info_hash: "h".to_string(),
                file_idx: None,
                file_hint: Some("a.srt".to_string()),
            }),
            "und - SUBRIP - External",
        ),
    ] {
        let sub = SubtitleInfo { url, lang: None, is_forced: false, is_hi: true };
        let track = subtitle_to_media_stream(&sub);
        assert_eq!(track.display_title.as_deref(), Some(title));
        assert_eq!(track.language, None);
        assert!(track.is_hearing_impaired);
    }
}

fn stremio_stream() -> Stream {
    Stream { url: Some("https://h/a".to_string()), name: Some("N".to_string()) }
}

#[test]
fn streams_of_stremio_become_sources() {
    let source = stremio_source_with_id(5, stremio_stream());
    assert_eq!(source.id, 5);
    assert_eq!(source.e_tag, 5);
    assert_eq!(source.path.as_deref(), Some("https://h/a"));
    assert_eq!(source.name.as_deref(), Some("N"));
    assert!(!source.supports_transcoding && source.supports_direct_stream);
    assert!(source.supports_direct_play && !source.is_remote);
}

#[test]
fn streams_of_stremio_get_fresh_identifiers() {
    let a = stream_into_media_source_info("x".to_string(), MediaType::Video, stremio_stream());
    let b = stream_into_media_source_info("x".to_string(), MediaType::Video, stremio_stream());
    assert_ne!(a.id, b.id);
    assert_eq!(a.id, a.e_tag);
    assert_eq!((a.id >> 76) & 0xf, 4);
    assert_eq!((a.id >> 62) & 3, 2);
}

#[test]
fn flags_are_read() {
    assert_eq!(to_option_bool(1), Some(true));
    assert_eq!(to_option_bool(0), Some(false));
    assert_eq!(to_option_bool(2), None);
    assert_eq!(to_option_bool(-1), None);
}

#[test]
fn display_preferences_are_kept() {
    let mut custom_prefs = HashMap::new();
    custom_prefs.insert("a".to_string(), Some("b".to_string()));
    let kept = JellyfinDisplayPrefsData::from(DisplayPreferencesDto {
        view_type: Some("v".to_string()),
        sort_by: Some("s".to_string()),
        index_by: None,
        remember_indexing: true,
        primary_image_height: 3,
        primary_image_width: 4,
        custom_prefs: custom_prefs.clone(),
        scroll_direction: ScrollDirection::Vertical,
        show_backdrop: false,
        remember_sorting: true,
        sort_order: SortOrder::Descending,
        show_sidebar: false,
    });
    assert_eq!(kept.view_type.as_deref(), Some("v"));
    assert_eq!(kept.sort_by.as_deref(), Some("s"));
    assert_eq!(kept.primary_image_height, 3);
    assert_eq!(kept.primary_image_width, 4);
    assert_eq!(kept.custom_prefs, custom_prefs);
    assert_eq!(kept.scroll_direction, ScrollDirection::Vertical);
    assert_eq!(kept.sort_order, SortOrder::Descending);
    assert!(kept.remember_indexing && kept.remember_sorting && !kept.show_sidebar);
    assert_eq!(kept.home_sections, None);
}

#[test]
fn episodes_become_items() {
    let time = UtcTime { seconds: 10, nanos: 1 };
    let media = Media::from_episode(Episode {
        name: Some("Pilot".to_string()),
        released: Some(time),
        runtime: Some(1800),
        overview: None,
        description: Some("d".to_string()),
        rating: Some(7.5f64.to_bits()),
        thumbnail: Some("https://h/t.jpg".to_string()),
    });
    assert_eq!(media.kind, MediaKind::Episode);
    assert_eq!(media.title, "Pilot");
    assert_eq!(media.released_at, Some(time));
    assert_eq!(media.runtime, Some(1800));
    assert_eq!(media.description.as_deref(), Some("d"));
    assert_eq!(media.rating_audience.map(f64::from_bits), Some(7.5));
    assert_eq!(media.primary_image.as_deref(), Some("https://h/t.jpg"));

    let bare = Media::from_episode(Episode {
        name: None,
        released: None,
        runtime: None,
        overview: Some("o".to_string()),
        description: Some("d".to_string()),
        rating: None,
        thumbnail: None,
    });
    assert_eq!(bare.title, "");
    assert_eq!(bare.description.as_deref(), Some("o"));
    assert_eq!(bare.primary_image, None);
}
