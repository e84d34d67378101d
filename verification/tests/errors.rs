use rgc::errors::{classify, classify_lowercase, kind_of, Error, FailureKind, RgcError};

#[test]
fn classify_network_error() {
    assert_eq!(
        classify("fatal: unable to access 'https://github.com/x/y/': Could not resolve host: github.com"),
        FailureKind::Network
    );
    assert_eq!(classify("fatal: the remote end hung up unexpectedly"), FailureKind::Network);
    assert_eq!(classify("fatal: Could not read from remote repository."), FailureKind::Network);
    assert_eq!(classify("error: RPC failed; curl 56 OpenSSL SSL_read: error"), FailureKind::Network);
}

#[test]
fn classify_rate_limit() {
    assert_eq!(
        classify("error: RPC failed; The requested URL returned error: 429"),
        FailureKind::RateLimited
    );
    assert_eq!(classify("remote: abuse detection triggered"), FailureKind::RateLimited);
    assert_eq!(
        classify("remote: Enumerating objects: 1429, done.\nfatal: the remote end hung up unexpectedly"),
        FailureKind::Network
    );
    assert_eq!(
        classify("fatal: unable to access 'https://x/': The requested URL returned error: 429"),
        FailureKind::RateLimited
    );
}

#[test]
fn classify_congestion() {
    assert_eq!(
        classify("error: RPC failed; curl 56 Recv failure: Connection reset by peer"),
        FailureKind::Congestion
    );
}

#[test]
fn classify_shallow_unsupported() {
    assert_eq!(
        classify("fatal: Server does not support shallow clients"),
        FailureKind::ShallowUnsupported
    );
    assert_eq!(
        classify("fatal: Server does not support shallow requests"),
        FailureKind::ShallowUnsupported
    );
    assert_eq!(
        classify("dumb http transport does not support shallow capabilities"),
        FailureKind::ShallowUnsupported
    );
}

#[test]
fn classify_fatal_by_default() {
    assert_eq!(classify("fatal: Authentication failed"), FailureKind::Fatal);
}

#[test]
fn kind_of_wraps_through_anyhow() {
    let e: Error = RgcError::Network("boom".into()).into();
    assert_eq!(kind_of(&e), FailureKind::Network);
}

#[test]
fn kind_of_unknown_is_fatal() {
    let e = Error::Other("disk low".into());
    assert_eq!(kind_of(&e), FailureKind::Fatal);
}

#[test]
fn from_kind_roundtrips() {
    for (k, msg) in [
        (FailureKind::RateLimited, "a"),
        (FailureKind::Congestion, "b"),
        (FailureKind::Network, "c"),
        (FailureKind::ShallowUnsupported, "d"),
        (FailureKind::Fatal, "e"),
    ] {
        assert_eq!(RgcError::from_kind(k, msg.into()).kind(), k);
        assert_eq!(RgcError::from_kind(k, msg.into()).message(), msg);
    }
}

#[test]
fn classify_ignores_case() {
    assert_eq!(classify("CONNECTION RESET"), FailureKind::Congestion);
    assert_eq!(classify_lowercase("CONNECTION RESET"), FailureKind::Fatal);
    assert_eq!(classify("HTTP 429"), FailureKind::RateLimited);
}

#[test]
fn classify_each_phrase() {
    for s in ["rate limit", "secondary rate", "error: 429", "http 429"] {
        assert_eq!(classify_lowercase(s), FailureKind::RateLimited, "{}", s);
    }
    for s in ["connection refused", "timed out", "early eof", "temporary failure", "unable to access"] {
        assert_eq!(classify_lowercase(s), FailureKind::Network, "{}", s);
    }
    assert_eq!(classify_lowercase("shallow over dumb http"), FailureKind::ShallowUnsupported);
    assert_eq!(classify_lowercase("shallow"), FailureKind::Fatal);
    assert_eq!(classify_lowercase(""), FailureKind::Fatal);
}

#[test]
fn rate_limit_wins_in_any_context() {
    assert_eq!(
        classify("connection reset, shallow, dumb http, timed out, rate limit, and more"),
        FailureKind::RateLimited
    );
}

#[test]
fn errors_render_kind_and_context() {
    let e: Error = RgcError::RateLimited("slow down".into()).into();
    assert_eq!(e.render(), "[RateLimited] slow down");
    assert_eq!(Error::Other("disk low".into()).render(), "disk low");
    let e = e.context("checkout main");
    assert_eq!(e.render(), "checkout main: [RateLimited] slow down");
    assert_eq!(kind_of(&e), FailureKind::RateLimited);
    assert_eq!(e.context("finalize").render(), "finalize: checkout main: [RateLimited] slow down");
    assert_eq!(Error::Other("x".into()).context("y").render(), "y: x");
    assert_eq!(RgcError::ShallowUnsupported("n".into()).render(), "[ShallowUnsupported] n");
    assert_eq!(RgcError::Congestion("n".into()).clone().render(), "[Congestion] n");
}
