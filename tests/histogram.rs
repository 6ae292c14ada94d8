use flame::{Bucket, Buffer, Color};

fn bucket(alpha: u32, red: u32, green: u32, blue: u32) -> Bucket<u32> {
    Bucket { alpha, red, green, blue }
}

fn sample_buffer(seed: u32) -> Buffer<u32> {
    Buffer::from_func(3, 2, |x, y| {
        let v = seed + x as u32 + 10 * y as u32;
        bucket(v, 2 * v, 3 * v, 4 * v)
    })
}

#[test]
fn new_buffer_is_empty() {
    let b = Buffer::new(4, 3);
    assert_eq!(b.width, 4);
    assert_eq!(b.height, 3);
    assert_eq!(b.buckets.len(), 12);
    assert!(b.buckets.iter().all(|c| *c == bucket(0, 0, 0, 0)));
}

#[test]
fn from_func_stores_rows_in_order() {
    let b = sample_buffer(0);
    assert_eq!(b.buckets.len(), 6);
    assert_eq!(b.get(2, 1), bucket(12, 24, 36, 48));
    assert_eq!(b.buckets[1], bucket(1, 2, 3, 4));
    assert_eq!(b.buckets[3], bucket(10, 20, 30, 40));
}

#[test]
fn get_mut_changes_one_bucket() {
    let mut b = Buffer::new(2, 2);
    *b.get_mut(1, 0) = bucket(5, 6, 7, 8);
    assert_eq!(b.get(1, 0), bucket(5, 6, 7, 8));
    assert_eq!(b.buckets[1], bucket(5, 6, 7, 8));
    assert_eq!(b.get(0, 1), bucket(0, 0, 0, 0));
}

#[test]
fn plot_adds_one_hit_and_the_color() {
    let mut b = Buffer::new(10, 10);
    assert!(b.plot(3, 4, Color::rgb(255, 128, 0)));
    assert!(b.plot(3, 4, Color::rgb(1, 2, 3)));
    assert_eq!(b.get(3, 4), bucket(2, 256, 130, 3));
    let plotted: u32 = b.buckets.iter().map(|c| c.alpha).sum();
    assert_eq!(plotted, 2);
}

#[test]
fn plot_refuses_to_overflow() {
    let mut c = bucket(u32::MAX, 0, 0, 0);
    assert!(!c.plot(Color::rgb(1, 1, 1)));
    assert_eq!(c, bucket(u32::MAX, 0, 0, 0));
    let mut d = bucket(0, u32::MAX - 254, 0, 0);
    assert!(!d.plot(Color::rgb(255, 0, 0)));
    assert!(d.plot(Color::rgb(254, 0, 0)));
    assert_eq!(d, bucket(1, u32::MAX, 0, 0));
}

#[test]
fn combine_sums_bucketwise() {
    let a = sample_buffer(1);
    let b = sample_buffer(100);
    let c = Buffer::combine(vec![a.clone(), b.clone()]);
    assert_eq!(c.width, 3);
    assert_eq!(c.height, 2);
    for i in 0..6 {
        let (x, y) = (a.buckets[i], b.buckets[i]);
        assert_eq!(
            c.buckets[i],
            bucket(x.alpha + y.alpha, x.red + y.red, x.green + y.green, x.blue + y.blue)
        );
    }
}

#[test]
fn combine_is_order_independent() {
    let a = sample_buffer(7);
    let b = sample_buffer(40);
    let ab = Buffer::combine(vec![a.clone(), b.clone()]);
    let ba = Buffer::combine(vec![b, a]);
    assert_eq!(ab.buckets, ba.buckets);
}

#[test]
fn combine_with_empty_is_identity() {
    let a = sample_buffer(3);
    let z = Buffer::new(3, 2);
    assert_eq!(Buffer::combine(vec![a.clone(), z.clone()]).buckets, a.buckets);
    assert_eq!(Buffer::combine(vec![z, a.clone()]).buckets, a.buckets);
}

#[test]
fn combine_of_one_buffer_is_that_buffer() {
    let a = sample_buffer(9);
    assert_eq!(Buffer::combine(vec![a.clone()]).buckets, a.buckets);
}

#[test]
fn combine_of_empty_workers_is_empty() {
    let c = Buffer::combine(vec![Buffer::new(10, 10), Buffer::new(10, 10), Buffer::new(10, 10)]);
    assert!(c.buckets.iter().all(|b| *b == bucket(0, 0, 0, 0)));
}

#[test]
fn bucket_channel_lists() {
    let b = bucket(1, 2, 3, 4);
    assert_eq!(b.iter_argb(), vec![1, 2, 3, 4]);
    assert_eq!(b.iter_rgb(), vec![2, 3, 4]);
    assert_eq!(Bucket::from_argb(&[9, 8, 7, 6, 5]), Some(bucket(9, 8, 7, 6)));
    assert_eq!(Bucket::<u32>::from_argb(&[9, 8, 7]), None);
    assert_eq!(b.map(|c| c * 10), bucket(10, 20, 30, 40));
    let mut acc = bucket(1, 1, 1, 1);
    acc.accumulate(b);
    assert_eq!(acc, bucket(2, 3, 4, 5));
    assert_eq!(Bucket::<u32>::new(), bucket(0, 0, 0, 0));
}

#[test]
fn bucket_channels_in_place() {
    let mut b = bucket(1, 2, 3, 4);
    {
        let (r, g, bl) = b.iter_rgb_mut();
        *r += 10;
        *g += 20;
        *bl += 30;
    }
    assert_eq!(b, bucket(1, 12, 23, 34));
    let (a, r, g, bl) = b.iter_argb_mut();
    *a = 0;
    *r = 0;
    *g = 0;
    *bl = 0;
    assert_eq!(b, bucket(0, 0, 0, 0));
}

#[test]
fn checked_combine_rejects_what_combine_cannot_merge() {
    assert!(Buffer::checked_combine(vec![]).is_none());
    assert!(Buffer::checked_combine(vec![Buffer::new(2, 2), Buffer::new(2, 3)]).is_none());
    let mut malformed = Buffer::new(2, 2);
    malformed.buckets.pop();
    assert!(Buffer::checked_combine(vec![Buffer::new(2, 2), malformed]).is_none());
    let full = Buffer::from_func(2, 2, |_, _| bucket(u32::MAX, 0, 0, 0));
    let one = Buffer::from_func(2, 2, |x, y| bucket(if x == 1 && y == 1 { 1 } else { 0 }, 0, 0, 0));
    assert!(Buffer::checked_combine(vec![full.clone(), one]).is_none());
    let merged = Buffer::checked_combine(vec![full.clone(), Buffer::new(2, 2)]).unwrap();
    assert_eq!(merged.buckets, full.buckets);
}

#[test]
fn image_samples() {
    let b: Buffer<u8> = Buffer::from_func(2, 1, |x, _| Bucket {
        alpha: 10 + x as u8,
        red: 20 + x as u8,
        green: 30 + x as u8,
        blue: 40 + x as u8,
    });
    assert_eq!(b.gray_samples(), vec![10, 11]);
    assert_eq!(b.rgb_samples(), vec![20, 30, 40, 21, 31, 41]);
}

#[test]
fn blocks_of_a_supersampled_grid() {
    // 2 output pixels wide and 1 high at radius 1: 3 * 2 + 2 = 8 by 3 * 1 + 2 = 5.
    let b = Buffer::from_func(8, 5, |x, y| bucket((x + 10 * y) as u32, 0, 0, 0));
    let first: Vec<u32> = b.block(0, 0, 1).iter().map(|c| c.alpha).collect();
    assert_eq!(first, vec![0, 1, 2, 10, 11, 12, 20, 21, 22]);
    let second: Vec<u32> = b.block(1, 0, 1).iter().map(|c| c.alpha).collect();
    assert_eq!(second, vec![3, 4, 5, 13, 14, 15, 23, 24, 25]);
    let single: Vec<u32> = b.block(7, 4, 0).iter().map(|c| c.alpha).collect();
    assert_eq!(single, vec![47]);
}
