use plasma_protocol::nonzero::NonZero16;
use plasma_protocol::nonzero::NonZero8;
use plasma_protocol::{
    ChatRecipient, ClientActivity, DiscreteExtremaMetricAccumulator, DiscreteMetricAccumulator,
    DistinctCountMetricSummary, FatalError, HistogramMetricAccumulator, HistogramSlot,
    MedianBucket, NavigationMetricsDto, NonZeroUnixMillis, PlayerId, RatioMetricAccumulator,
    RealmAcl, ServerNumber, ServerRole,
};

#[test]
fn discrete_counts_saturate() {
    let mut count = DiscreteMetricAccumulator::new(5);
    count.increment();
    count.add_multiple(10);
    count.add_length(4);
    assert_eq!(count.total, 20);
    assert_eq!(count.summarize().total, 20);
    assert_eq!(count.data_point(), (20,));
    count.add_multiple(u32::MAX);
    assert_eq!(count.total, u32::MAX);
    count.increment();
    assert_eq!(count.total, u32::MAX);
    let mut count = DiscreteMetricAccumulator::default();
    count.add_length(usize::MAX);
    assert_eq!(count.total, u32::MAX);
    assert_eq!(DiscreteMetricAccumulator::new(3).add(DiscreteMetricAccumulator::new(4)).total, 7);
    assert_eq!(DiscreteMetricAccumulator::new(u32::MAX).add(DiscreteMetricAccumulator::new(4)).total, u32::MAX);
    assert_eq!(DistinctCountMetricSummary::new(9).total(), 9);
}

#[test]
fn discrete_extrema() {
    let mut extrema = DiscreteExtremaMetricAccumulator::default();
    extrema.push(7);
    assert_eq!(extrema, DiscreteExtremaMetricAccumulator { count: 0, min: 7, max: 7 });
    extrema.push(3);
    assert_eq!(extrema, DiscreteExtremaMetricAccumulator { count: 0, min: 3, max: 3 });
    let mut counted = DiscreteExtremaMetricAccumulator { count: 1, min: 5, max: 5 };
    counted.push(9);
    counted.push(2);
    assert_eq!(counted, DiscreteExtremaMetricAccumulator { count: 3, min: 2, max: 9 });
    assert_eq!(counted.data_point(), (2, 9));
    assert_eq!(counted.summarize(), counted);
    let mut full = DiscreteExtremaMetricAccumulator { count: u32::MAX, min: 5, max: 5 };
    full.push(1);
    assert_eq!(full, DiscreteExtremaMetricAccumulator { count: u32::MAX, min: 5, max: 5 });
    assert_eq!(extrema.add(counted), counted);
    assert_eq!(counted.add(extrema), counted);
    assert_eq!(
        counted.add(DiscreteExtremaMetricAccumulator { count: u32::MAX, min: 1, max: 3 }),
        DiscreteExtremaMetricAccumulator { count: u32::MAX, min: 1, max: 9 }
    );
}

#[test]
fn ratios() {
    let mut ratio = RatioMetricAccumulator::new(true);
    ratio.push(false);
    ratio.push(true);
    assert_eq!(ratio, RatioMetricAccumulator { total: 3, count: 2 });
    let mut full = RatioMetricAccumulator { total: u32::MAX, count: 1 };
    full.push(true);
    assert_eq!(full, RatioMetricAccumulator { total: u32::MAX, count: 1 });
    assert_eq!(RatioMetricAccumulator::new(false), RatioMetricAccumulator { total: 1, count: 0 });
    assert_eq!(RatioMetricAccumulator::default(), RatioMetricAccumulator { total: 0, count: 0 });
    let other = RatioMetricAccumulator { total: 4, count: 1 };
    assert!(ratio.fits(other));
    assert_eq!(ratio.add(other), RatioMetricAccumulator { total: 7, count: 3 });
    assert!(!full.fits(other));
    let big = RatioMetricAccumulator { total: u32::MAX - 2, count: 9 };
    assert!(ratio.fits(big));
    assert_eq!(ratio.add(big), RatioMetricAccumulator { total: 5, count: 4 });
}

#[test]
fn histograms() {
    let mut histogram = HistogramMetricAccumulator::<4>::default();
    assert_eq!(histogram.median_bucket(), None);
    histogram.record(HistogramSlot::Bucket(0));
    assert_eq!(histogram.median_bucket(), None);
    histogram.record(HistogramSlot::Bucket(2));
    histogram.record(HistogramSlot::Bucket(2));
    histogram.record(HistogramSlot::Bucket(9));
    histogram.record(HistogramSlot::Underflow);
    histogram.record(HistogramSlot::Overflow);
    histogram.record(HistogramSlot::Overflow);
    assert_eq!([histogram.bucket(0), histogram.bucket(1), histogram.bucket(2), histogram.bucket(3)], [1, 0, 2, 1]);
    assert_eq!((histogram.underflow_count(), histogram.overflow_count()), (1, 2));
    assert_eq!(histogram.median_bucket(), Some(MedianBucket { bucket: 2, before: 1, count: 2, target: 2 }));
    let sum = histogram.add(histogram);
    assert_eq!([sum.bucket(0), sum.bucket(1), sum.bucket(2), sum.bucket(3)], [2, 0, 4, 2]);
    assert_eq!((sum.underflow_count(), sum.overflow_count()), (2, 4));
    assert_eq!(sum.median_bucket(), Some(MedianBucket { bucket: 2, before: 2, count: 4, target: 4 }));
    assert_eq!(NavigationMetricsDto::default().dns, 0);
}

#[test]
fn quest_and_roles() {
    assert!(ClientActivity::Hidden.is_hidden() && !ClientActivity::Hidden.is_afk());
    assert!(ClientActivity::Afk.is_afk() && !ClientActivity::Afk.is_active());
    assert!(ClientActivity::Active.is_active() && !ClientActivity::Active.is_hidden());
    assert_eq!(ClientActivity::default(), ClientActivity::Active);
    assert_eq!(FatalError::from("no WebGL2 here".to_string()), FatalError::WebGl2);
    assert_eq!(FatalError::from("no WebGL here".to_string()), FatalError::WebGl);
    assert_eq!(FatalError::from("WebGL 2".to_string()), FatalError::WebGl);
    assert_eq!(FatalError::from(String::new()), FatalError::WebGl);
    let to = ServerNumber::new(3);
    let failed = ServerRole::Failed { date_failed: NonZeroUnixMillis::new(5).unwrap(), diagnostic: None, redirect: to };
    assert!(failed.is_closing() && failed.is_redirected());
    assert_eq!(failed.redirect(), to);
    assert_eq!(failed.to_string(), "failed (redirect to 3)");
    let standby = ServerRole::Standby { redirect: None };
    assert!(standby.is_closing() && !standby.is_redirected());
    assert_eq!(standby.to_string(), "standby");
    assert_eq!(ServerRole::Terminating { redirect: to }.to_string(), "terminating (redirect to 3)");
    assert!(ServerRole::Public.is_public() && !ServerRole::Public.is_closing());
    assert!(ServerRole::Realms.is_realms() && ServerRole::default().is_unlisted());
    assert_eq!(ServerRole::Deleting.redirect(), None);
    assert_eq!(ServerRole::Deleting.to_string(), "deleting");
    assert_eq!(ChatRecipient::default(), ChatRecipient::Broadcast);
    assert_ne!(ChatRecipient::Player(PlayerId(NonZero16::new(1).unwrap())), ChatRecipient::Nobody);
    assert_eq!(RealmAcl::default(), RealmAcl::VisitorBlacklist(Vec::new()));
    assert_eq!(NonZero8::new(3).map(|n| n.get()), Some(3));
}
